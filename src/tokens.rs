use vstd::prelude::*;

verus! {

/// The sixteen hexadecimal digits, in order.
pub open spec fn hex_digits() -> Seq<char> {
    seq!['0', '1', '2', '3', '4', '5', '6', '7', '8', '9', 'a', 'b', 'c', 'd', 'e', 'f']
}

/// Hexadecimal digit number `i` of `n`, counting from the most significant.
pub open spec fn nibble(n: u64, i: int) -> u64 {
    (n >> ((60 - 4 * i) as u64)) & 15
}

/// The handle token for serial number `n`: its sixteen hexadecimal
/// digits, most significant first.
pub open spec fn token_of(n: u64) -> Seq<char> {
    Seq::new(16, |i: int| hex_digits()[nibble(n, i) as int])
}

/// Distinct digit values have distinct digits.
proof fn lemma_hex_digit_injective(x: int, y: int)
    requires
        0 <= x < 16,
        0 <= y < 16,
        hex_digits()[x] == hex_digits()[y],
    ensures
        x == y,
{
    let d = hex_digits();
    assert(d[0] == '0');
    assert(d[1] == '1');
    assert(d[2] == '2');
    assert(d[3] == '3');
    assert(d[4] == '4');
    assert(d[5] == '5');
    assert(d[6] == '6');
    assert(d[7] == '7');
    assert(d[8] == '8');
    assert(d[9] == '9');
    assert(d[10] == 'a');
    assert(d[11] == 'b');
    assert(d[12] == 'c');
    assert(d[13] == 'd');
    assert(d[14] == 'e');
    assert(d[15] == 'f');
}

/// Distinct serial numbers give distinct tokens.
pub proof fn lemma_token_injective(a: u64, b: u64)
    requires
        token_of(a) == token_of(b),
    ensures
        a == b,
{
    assert forall|i: int| 0 <= i < 16 implies nibble(a, i) == nibble(b, i) by {
        let sa = (60 - 4 * i) as u64;
        assert(((a >> sa) & 15) < 16) by (bit_vector);
        assert(((b >> sa) & 15) < 16) by (bit_vector);
        assert(nibble(a, i) == (a >> sa) & 15);
        assert(nibble(b, i) == (b >> sa) & 15);
        assert(token_of(a)[i] == token_of(b)[i]);
        assert(token_of(a)[i] == hex_digits()[nibble(a, i) as int]);
        assert(token_of(b)[i] == hex_digits()[nibble(b, i) as int]);
        lemma_hex_digit_injective(nibble(a, i) as int, nibble(b, i) as int);
    }
    assert(nibble(a, 0) == nibble(b, 0));
    assert(nibble(a, 1) == nibble(b, 1));
    assert(nibble(a, 2) == nibble(b, 2));
    assert(nibble(a, 3) == nibble(b, 3));
    assert(nibble(a, 4) == nibble(b, 4));
    assert(nibble(a, 5) == nibble(b, 5));
    assert(nibble(a, 6) == nibble(b, 6));
    assert(nibble(a, 7) == nibble(b, 7));
    assert(nibble(a, 8) == nibble(b, 8));
    assert(nibble(a, 9) == nibble(b, 9));
    assert(nibble(a, 10) == nibble(b, 10));
    assert(nibble(a, 11) == nibble(b, 11));
    assert(nibble(a, 12) == nibble(b, 12));
    assert(nibble(a, 13) == nibble(b, 13));
    assert(nibble(a, 14) == nibble(b, 14));
    assert(nibble(a, 15) == nibble(b, 15));
    assert(((a >> 60u64) & 15 == (b >> 60u64) & 15 && (a >> 56u64) & 15 == (b >> 56u64) & 15
        && (a >> 52u64) & 15 == (b >> 52u64) & 15 && (a >> 48u64) & 15 == (b >> 48u64) & 15
        && (a >> 44u64) & 15 == (b >> 44u64) & 15 && (a >> 40u64) & 15 == (b >> 40u64) & 15
        && (a >> 36u64) & 15 == (b >> 36u64) & 15 && (a >> 32u64) & 15 == (b >> 32u64) & 15
        && (a >> 28u64) & 15 == (b >> 28u64) & 15 && (a >> 24u64) & 15 == (b >> 24u64) & 15
        && (a >> 20u64) & 15 == (b >> 20u64) & 15 && (a >> 16u64) & 15 == (b >> 16u64) & 15
        && (a >> 12u64) & 15 == (b >> 12u64) & 15 && (a >> 8u64) & 15 == (b >> 8u64) & 15
        && (a >> 4u64) & 15 == (b >> 4u64) & 15 && (a >> 0u64) & 15 == (b >> 0u64) & 15)
        ==> a == b) by (bit_vector);
}

/// The one-character string of hexadecimal digit `d`.
fn hex_digit(d: u64) -> (r: &'static str)
    requires
        d < 16,
    ensures
        r@ == seq![hex_digits()[d as int]],
{
    match d {
        0 => {
            proof {
                reveal_strlit("0");
            }
            assert("0"@ =~= seq![hex_digits()[0]]);
            "0"
        },
        1 => {
            proof {
                reveal_strlit("1");
            }
            assert("1"@ =~= seq![hex_digits()[1]]);
            "1"
        },
        2 => {
            proof {
                reveal_strlit("2");
            }
            assert("2"@ =~= seq![hex_digits()[2]]);
            "2"
        },
        3 => {
            proof {
                reveal_strlit("3");
            }
            assert("3"@ =~= seq![hex_digits()[3]]);
            "3"
        },
        4 => {
            proof {
                reveal_strlit("4");
            }
            assert("4"@ =~= seq![hex_digits()[4]]);
            "4"
        },
        5 => {
            proof {
                reveal_strlit("5");
            }
            assert("5"@ =~= seq![hex_digits()[5]]);
            "5"
        },
        6 => {
            proof {
                reveal_strlit("6");
            }
            assert("6"@ =~= seq![hex_digits()[6]]);
            "6"
        },
        7 => {
            proof {
                reveal_strlit("7");
            }
            assert("7"@ =~= seq![hex_digits()[7]]);
            "7"
        },
        8 => {
            proof {
                reveal_strlit("8");
            }
            assert("8"@ =~= seq![hex_digits()[8]]);
            "8"
        },
        9 => {
            proof {
                reveal_strlit("9");
            }
            assert("9"@ =~= seq![hex_digits()[9]]);
            "9"
        },
        10 => {
            proof {
                reveal_strlit("a");
            }
            assert("a"@ =~= seq![hex_digits()[10]]);
            "a"
        },
        11 => {
            proof {
                reveal_strlit("b");
            }
            assert("b"@ =~= seq![hex_digits()[11]]);
            "b"
        },
        12 => {
            proof {
                reveal_strlit("c");
            }
            assert("c"@ =~= seq![hex_digits()[12]]);
            "c"
        },
        13 => {
            proof {
                reveal_strlit("d");
            }
            assert("d"@ =~= seq![hex_digits()[13]]);
            "d"
        },
        14 => {
            proof {
                reveal_strlit("e");
            }
            assert("e"@ =~= seq![hex_digits()[14]]);
            "e"
        },
        _ => {
            proof {
                reveal_strlit("f");
            }
            assert("f"@ =~= seq![hex_digits()[15]]);
            "f"
        },
    }
}

/// The handle token for serial number `n`.
pub fn make_token(n: u64) -> (r: String)
    ensures
        r@ == token_of(n),
{
    let mut s = String::new();
    let mut i: u64 = 0;
    while i < 16
        invariant
            i <= 16,
            s@ == token_of(n).take(i as int),
        decreases 16 - i,
    {
        let shift: u64 = 60 - 4 * i;
        let d: u64 = (n >> shift) & 15;
        assert(((n >> shift) & 15) < 16) by (bit_vector);
        assert(d == nibble(n, i as int));
        s.append(hex_digit(d));
        assert(s@ =~= token_of(n).take(i as int + 1));
        i = i + 1;
    }
    assert(token_of(n).take(16) =~= token_of(n));
    s
}

} // verus!
