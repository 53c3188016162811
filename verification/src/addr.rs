//! Textual rendering of raw IP address octets: dotted decimal for four
//! octets, colon-separated hextet groups for sixteen.
//!
//! The wire carries addresses as opaque binary blobs; the client layer
//! renders them for the caller. The spec functions here define the
//! digit sequences exactly, and the exec functions are proved to
//! produce them.

use vstd::prelude::*;

use crate::codec::dec_u16;

verus! {

/// The character for one digit value below 16: `0`-`9`, then `a`-`f`.
pub open spec fn digit_char(d: int) -> char {
    if d == 0 {
        '0'
    } else if d == 1 {
        '1'
    } else if d == 2 {
        '2'
    } else if d == 3 {
        '3'
    } else if d == 4 {
        '4'
    } else if d == 5 {
        '5'
    } else if d == 6 {
        '6'
    } else if d == 7 {
        '7'
    } else if d == 8 {
        '8'
    } else if d == 9 {
        '9'
    } else if d == 10 {
        'a'
    } else if d == 11 {
        'b'
    } else if d == 12 {
        'c'
    } else if d == 13 {
        'd'
    } else if d == 14 {
        'e'
    } else {
        'f'
    }
}

/// The decimal digits of a non-negative number, most significant first,
/// with no leading zeros (zero itself is the single digit `0`).
pub open spec fn dec_digits(n: int) -> Seq<char>
    decreases n,
{
    if n < 10 {
        seq![digit_char(n)]
    } else {
        dec_digits(n / 10).push(digit_char(n % 10))
    }
}

/// The lowercase hexadecimal digits of a non-negative number, most
/// significant first, with no leading zeros.
pub open spec fn hex_digits(n: int) -> Seq<char>
    decreases n,
{
    if n < 16 {
        seq![digit_char(n)]
    } else {
        hex_digits(n / 16).push(digit_char(n % 16))
    }
}

/// The dotted-decimal text of four octets.
pub open spec fn ipv4_str(a: u8, b: u8, c: u8, d: u8) -> Seq<char> {
    dec_digits(a as int) + seq!['.'] + dec_digits(b as int) + seq!['.'] + dec_digits(c as int)
        + seq!['.'] + dec_digits(d as int)
}

/// The hextet group `i` (0-based) of sixteen address octets: two bytes,
/// big-endian.
pub open spec fn ipv6_group(s: Seq<u8>, i: int) -> Seq<char> {
    hex_digits(dec_u16(s.subrange(2 * i, 2 * i + 2)) as int)
}

/// The first `k` hextet groups of sixteen address octets, joined by
/// colons.
pub open spec fn ipv6_prefix(s: Seq<u8>, k: int) -> Seq<char>
    decreases k,
{
    if k <= 0 {
        Seq::empty()
    } else if k == 1 {
        ipv6_group(s, 0)
    } else {
        ipv6_prefix(s, k - 1) + seq![':'] + ipv6_group(s, k - 1)
    }
}

/// The canonical colon-separated eight-group hextet text of sixteen
/// address octets, big-endian within each group, lowercase hex digits
/// with no leading zeros and no zero compression.
pub open spec fn ipv6_str(s: Seq<u8>) -> Seq<char> {
    ipv6_prefix(s, 8)
}

/// The text of a signed 16-bit number in decimal.
pub open spec fn i16_dec_str(m: i16) -> Seq<char> {
    if m < 0 {
        seq!['-'] + dec_digits(-(m as int))
    } else {
        dec_digits(m as int)
    }
}

/// One digit below 16 as a string slice.
fn digit_str(d: u8) -> (r: &'static str)
    requires
        d < 16,
    ensures
        r@ == seq![digit_char(d as int)],
{
    if d == 0 {
        proof {
            reveal_strlit("0");
            assert("0"@ =~= seq![digit_char(0int)]);
        }
        "0"
    } else if d == 1 {
        proof {
            reveal_strlit("1");
            assert("1"@ =~= seq![digit_char(1int)]);
        }
        "1"
    } else if d == 2 {
        proof {
            reveal_strlit("2");
            assert("2"@ =~= seq![digit_char(2int)]);
        }
        "2"
    } else if d == 3 {
        proof {
            reveal_strlit("3");
            assert("3"@ =~= seq![digit_char(3int)]);
        }
        "3"
    } else if d == 4 {
        proof {
            reveal_strlit("4");
            assert("4"@ =~= seq![digit_char(4int)]);
        }
        "4"
    } else if d == 5 {
        proof {
            reveal_strlit("5");
            assert("5"@ =~= seq![digit_char(5int)]);
        }
        "5"
    } else if d == 6 {
        proof {
            reveal_strlit("6");
            assert("6"@ =~= seq![digit_char(6int)]);
        }
        "6"
    } else if d == 7 {
        proof {
            reveal_strlit("7");
            assert("7"@ =~= seq![digit_char(7int)]);
        }
        "7"
    } else if d == 8 {
        proof {
            reveal_strlit("8");
            assert("8"@ =~= seq![digit_char(8int)]);
        }
        "8"
    } else if d == 9 {
        proof {
            reveal_strlit("9");
            assert("9"@ =~= seq![digit_char(9int)]);
        }
        "9"
    } else if d == 10 {
        proof {
            reveal_strlit("a");
            assert("a"@ =~= seq![digit_char(10int)]);
        }
        "a"
    } else if d == 11 {
        proof {
            reveal_strlit("b");
            assert("b"@ =~= seq![digit_char(11int)]);
        }
        "b"
    } else if d == 12 {
        proof {
            reveal_strlit("c");
            assert("c"@ =~= seq![digit_char(12int)]);
        }
        "c"
    } else if d == 13 {
        proof {
            reveal_strlit("d");
            assert("d"@ =~= seq![digit_char(13int)]);
        }
        "d"
    } else if d == 14 {
        proof {
            reveal_strlit("e");
            assert("e"@ =~= seq![digit_char(14int)]);
        }
        "e"
    } else {
        proof {
            reveal_strlit("f");
            assert("f"@ =~= seq![digit_char(15int)]);
        }
        "f"
    }
}

/// The decimal text of a `u32`.
pub fn dec_str_u32(n: u32) -> (s: String)
    ensures
        s@ == dec_digits(n as int),
    decreases n,
{
    if n < 10 {
        String::from_str(digit_str(n as u8))
    } else {
        let mut s = dec_str_u32(n / 10);
        s.append(digit_str((n % 10) as u8));
        s
    }
}

/// The lowercase hexadecimal text of a `u16`, no leading zeros.
pub fn hex_str_u16(n: u16) -> (s: String)
    ensures
        s@ == hex_digits(n as int),
    decreases n,
{
    if n < 16 {
        String::from_str(digit_str(n as u8))
    } else {
        let mut s = hex_str_u16(n / 16);
        s.append(digit_str((n % 16) as u8));
        s
    }
}

/// The decimal text of a signed 16-bit number.
pub fn dec_str_i16(m: i16) -> (s: String)
    ensures
        s@ == i16_dec_str(m),
{
    if m < 0 {
        let mag = (-(m as i32)) as u32;
        let mut s = String::from_str("-");
        proof {
            reveal_strlit("-");
            assert("-"@ =~= seq!['-']);
        }
        s.append(dec_str_u32(mag).as_str());
        s
    } else {
        dec_str_u32(m as u32)
    }
}

/// Render four address octets as dotted decimal.
pub fn format_ipv4(a: u8, b: u8, c: u8, d: u8) -> (s: String)
    ensures
        s@ == ipv4_str(a, b, c, d),
{
    let mut s = dec_str_u32(a as u32);
    let dot = {
        proof {
            reveal_strlit(".");
            assert("."@ =~= seq!['.']);
        }
        "."
    };
    s.append(dot);
    s.append(dec_str_u32(b as u32).as_str());
    s.append(dot);
    s.append(dec_str_u32(c as u32).as_str());
    s.append(dot);
    s.append(dec_str_u32(d as u32).as_str());
    proof {
        assert(s@ =~= ipv4_str(a, b, c, d));
    }
    s
}

/// Render the first `k` hextet groups of sixteen address octets.
fn format_ipv6_prefix(bytes: &[u8], k: usize) -> (s: String)
    requires
        bytes@.len() == 16,
        k <= 8,
    ensures
        s@ == ipv6_prefix(bytes@, k as int),
    decreases k,
{
    if k == 0 {
        let s = String::from_str("");
        proof {
            reveal_strlit("");
            assert(""@ =~= Seq::<char>::empty());
        }
        s
    } else {
        let hi = bytes[2 * k - 2];
        let lo = bytes[2 * k - 1];
        let group = ((hi as u16) << 8) | (lo as u16);
        proof {
            let g = bytes@.subrange(2 * (k - 1) as int, 2 * (k - 1) as int + 2);
            assert(g[0] == hi && g[1] == lo);
            assert(group == dec_u16(g));
        }
        if k == 1 {
            hex_str_u16(group)
        } else {
            let mut s = format_ipv6_prefix(bytes, k - 1);
            let colon = {
                proof {
                    reveal_strlit(":");
                    assert(":"@ =~= seq![':']);
                }
                ":"
            };
            s.append(colon);
            s.append(hex_str_u16(group).as_str());
            proof {
                assert(s@ =~= ipv6_prefix(bytes@, k as int));
            }
            s
        }
    }
}

/// Render sixteen address octets as the canonical colon-separated
/// eight-group hextet text.
pub fn format_ipv6(bytes: &[u8]) -> (s: String)
    requires
        bytes@.len() == 16,
    ensures
        s@ == ipv6_str(bytes@),
{
    format_ipv6_prefix(bytes, 8)
}

} // verus!
