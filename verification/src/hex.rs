//! The hexadecimal text form of a 32-bit value.
//!
//! A value is written as 8 hexadecimal characters, most-significant nibble
//! first, in lowercase; reading accepts both cases. `hex8` gives the text of
//! a value, `hex_num` the value of a text, and `lemma_hex8_round_trip` shows
//! that reading inverts writing.

use vstd::prelude::*;

verus! {

/// The lowercase hexadecimal digit for a value below 16.
pub open spec fn hex_char_of(v: int) -> char {
    if v == 0 {
        '0'
    } else if v == 1 {
        '1'
    } else if v == 2 {
        '2'
    } else if v == 3 {
        '3'
    } else if v == 4 {
        '4'
    } else if v == 5 {
        '5'
    } else if v == 6 {
        '6'
    } else if v == 7 {
        '7'
    } else if v == 8 {
        '8'
    } else if v == 9 {
        '9'
    } else if v == 10 {
        'a'
    } else if v == 11 {
        'b'
    } else if v == 12 {
        'c'
    } else if v == 13 {
        'd'
    } else if v == 14 {
        'e'
    } else {
        'f'
    }
}

/// The value of a hexadecimal digit, either case, or -1 for any other
/// character.
pub open spec fn hex_digit_val(c: char) -> int {
    let n = c as int;
    if '0' as int <= n && n <= '9' as int {
        n - ('0' as int)
    } else if 'a' as int <= n && n <= 'f' as int {
        10 + n - ('a' as int)
    } else if 'A' as int <= n && n <= 'F' as int {
        10 + n - ('A' as int)
    } else {
        -1
    }
}

/// Whether a character is a hexadecimal digit, either case.
pub open spec fn is_hex_digit(c: char) -> bool {
    hex_digit_val(c) >= 0
}

/// Whether every character of a text is a hexadecimal digit.
pub open spec fn all_hex(s: Seq<char>) -> bool {
    forall|i: int| 0 <= i < s.len() ==> is_hex_digit(s[i])
}

/// The i-th nibble of a value, most-significant first, for i below 8.
pub open spec fn nibble(bits: u32, i: int) -> u32 {
    (bits >> ((28 - 4 * i) as u32)) & 0xF
}

/// The 8-character lowercase hexadecimal text of a value.
pub open spec fn hex8(bits: u32) -> Seq<char> {
    Seq::new(8, |i: int| hex_char_of(nibble(bits, i) as int))
}

/// The value named by a hexadecimal text, read most-significant digit first.
pub open spec fn hex_num(s: Seq<char>) -> int
    decreases s.len(),
{
    if s.len() == 0 {
        0
    } else {
        16 * hex_num(s.drop_last()) + hex_digit_val(s.last())
    }
}

/// The n-th power of 16.
pub open spec fn pow16(n: nat) -> int
    decreases n,
{
    if n == 0 {
        1
    } else {
        16 * pow16((n - 1) as nat)
    }
}

pub proof fn lemma_pow16_pos(n: nat)
    ensures
        pow16(n) >= 1,
    decreases n,
{
    if n > 0 {
        lemma_pow16_pos((n - 1) as nat);
    }
}

pub proof fn lemma_pow16_mono(a: nat, b: nat)
    requires
        a <= b,
    ensures
        pow16(a) <= pow16(b),
    decreases b,
{
    if a < b {
        lemma_pow16_mono(a, (b - 1) as nat);
        lemma_pow16_pos((b - 1) as nat);
    }
}

/// An all-hexadecimal text names a value below 16 to the power of its length.
pub proof fn lemma_hex_num_bound(s: Seq<char>)
    requires
        all_hex(s),
    ensures
        0 <= hex_num(s) < pow16(s.len()),
    decreases s.len(),
{
    if s.len() > 0 {
        assert(forall|i: int| 0 <= i < s.drop_last().len() ==> s.drop_last()[i] == s[i]);
        lemma_hex_num_bound(s.drop_last());
        assert(hex_digit_val(s.last()) <= 15);
    }
}

/// Reading one more digit multiplies the value so far by 16 and adds it.
pub proof fn lemma_hex_num_step(s: Seq<char>, k: int)
    requires
        0 <= k < s.len(),
    ensures
        hex_num(s.take(k + 1)) == 16 * hex_num(s.take(k)) + hex_digit_val(s[k]),
{
    assert(s.take(k + 1).drop_last() =~= s.take(k));
    assert(s.take(k + 1).last() == s[k]);
}

/// Each digit written for a value below 16 reads back as that value.
pub proof fn lemma_hex_char_val(v: int)
    requires
        0 <= v < 16,
    ensures
        is_hex_digit(hex_char_of(v)),
        hex_digit_val(hex_char_of(v)) == v,
{
}

/// Reading the 8-character text of a value gives the value back: the text
/// form is a bijection between 32-bit values and their hexadecimal names.
pub proof fn lemma_hex8_round_trip(bits: u32)
    ensures
        hex8(bits).len() == 8,
        all_hex(hex8(bits)),
        hex_num(hex8(bits)) == bits,
{
    let s = hex8(bits);
    assert(nibble(bits, 0) < 16 && nibble(bits, 1) < 16 && nibble(bits, 2) < 16 && nibble(
        bits,
        3,
    ) < 16 && nibble(bits, 4) < 16 && nibble(bits, 5) < 16 && nibble(bits, 6) < 16 && nibble(
        bits,
        7,
    ) < 16) by (bit_vector);
    assert forall|i: int| 0 <= i < 8 implies is_hex_digit(s[i]) && hex_digit_val(s[i]) == nibble(
        bits,
        i,
    ) by {
        lemma_hex_char_val(nibble(bits, i) as int);
    }
    assert(s.take(0) =~= Seq::<char>::empty());
    lemma_hex_num_step(s, 0);
    lemma_hex_num_step(s, 1);
    lemma_hex_num_step(s, 2);
    lemma_hex_num_step(s, 3);
    lemma_hex_num_step(s, 4);
    lemma_hex_num_step(s, 5);
    lemma_hex_num_step(s, 6);
    lemma_hex_num_step(s, 7);
    assert(s.take(8) =~= s);
    let v0 = nibble(bits, 0);
    let v1 = nibble(bits, 1);
    let v2 = nibble(bits, 2);
    let v3 = nibble(bits, 3);
    let v4 = nibble(bits, 4);
    let v5 = nibble(bits, 5);
    let v6 = nibble(bits, 6);
    let v7 = nibble(bits, 7);
    assert(hex_num(s.take(1)) == v0);
    assert(hex_num(s.take(2)) == 16 * v0 + v1);
    assert(hex_num(s.take(3)) == 16 * (16 * v0 + v1) + v2);
    assert(hex_num(s.take(4)) == 16 * (16 * (16 * v0 + v1) + v2) + v3);
    assert(hex_num(s.take(5)) == 16 * (16 * (16 * (16 * v0 + v1) + v2) + v3) + v4);
    assert(hex_num(s.take(6)) == 16 * (16 * (16 * (16 * (16 * v0 + v1) + v2) + v3) + v4) + v5);
    assert(hex_num(s.take(7)) == 16 * (16 * (16 * (16 * (16 * (16 * v0 + v1) + v2) + v3) + v4)
        + v5) + v6);
    assert(hex_num(s) == 16 * (16 * (16 * (16 * (16 * (16 * (16 * v0 + v1) + v2) + v3) + v4) + v5)
        + v6) + v7);
    assert(16 * (16 * (16 * (16 * (16 * (16 * (16 * v0 + v1) + v2) + v3) + v4) + v5) + v6) + v7
        == bits) by (bit_vector)
        requires
            v0 == nibble(bits, 0),
            v1 == nibble(bits, 1),
            v2 == nibble(bits, 2),
            v3 == nibble(bits, 3),
            v4 == nibble(bits, 4),
            v5 == nibble(bits, 5),
            v6 == nibble(bits, 6),
            v7 == nibble(bits, 7),
    ;
}

/// The lowercase digit of a value below 16, as a one-character text.
pub(crate) fn hex_char_str(v: u32) -> (s: &'static str)
    requires
        v < 16,
    ensures
        s@.len() == 1,
        s@[0] == hex_char_of(v as int),
{
    if v == 0 {
        proof {
            reveal_strlit("0");
        }
        "0"
    } else if v == 1 {
        proof {
            reveal_strlit("1");
        }
        "1"
    } else if v == 2 {
        proof {
            reveal_strlit("2");
        }
        "2"
    } else if v == 3 {
        proof {
            reveal_strlit("3");
        }
        "3"
    } else if v == 4 {
        proof {
            reveal_strlit("4");
        }
        "4"
    } else if v == 5 {
        proof {
            reveal_strlit("5");
        }
        "5"
    } else if v == 6 {
        proof {
            reveal_strlit("6");
        }
        "6"
    } else if v == 7 {
        proof {
            reveal_strlit("7");
        }
        "7"
    } else if v == 8 {
        proof {
            reveal_strlit("8");
        }
        "8"
    } else if v == 9 {
        proof {
            reveal_strlit("9");
        }
        "9"
    } else if v == 10 {
        proof {
            reveal_strlit("a");
        }
        "a"
    } else if v == 11 {
        proof {
            reveal_strlit("b");
        }
        "b"
    } else if v == 12 {
        proof {
            reveal_strlit("c");
        }
        "c"
    } else if v == 13 {
        proof {
            reveal_strlit("d");
        }
        "d"
    } else if v == 14 {
        proof {
            reveal_strlit("e");
        }
        "e"
    } else {
        proof {
            reveal_strlit("f");
        }
        "f"
    }
}

/// The value of one character read as a hexadecimal digit, either case, or
/// nothing where the character is no such digit.
pub(crate) fn hex_digit_value(c: char) -> (r: Option<u32>)
    ensures
        is_hex_digit(c) ==> r == Some(hex_digit_val(c) as u32),
        !is_hex_digit(c) ==> r is None,
{
    let n = c as u32;
    if 48 <= n && n <= 57 {
        Some(n - 48)
    } else if 97 <= n && n <= 102 {
        Some(n - 97 + 10)
    } else if 65 <= n && n <= 70 {
        Some(n - 65 + 10)
    } else {
        None
    }
}

} // verus!
