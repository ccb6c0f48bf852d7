//! Fixed-width ASCII-hexadecimal numeric fields, as the archive format
//! stores every numeric value in its entry headers.
use vstd::prelude::*;

verus! {

/// `b` is an ASCII hexadecimal digit of either case.
pub open spec fn is_hex_digit(b: u8) -> bool {
    (48 <= b <= 57) || (97 <= b <= 102) || (65 <= b <= 70)
}

/// Numeric value of one ASCII hexadecimal digit (0 on non-digits).
pub open spec fn hex_digit_value(b: u8) -> nat {
    if 48 <= b <= 57 {
        (b - 48) as nat
    } else if 97 <= b <= 102 {
        (b - 87) as nat
    } else if 65 <= b <= 70 {
        (b - 55) as nat
    } else {
        0
    }
}

/// Value of a sequence of hexadecimal digits, most significant digit first.
pub open spec fn hex_seq_value(s: Seq<u8>) -> nat
    decreases s.len(),
{
    if s.len() == 0 {
        0
    } else {
        hex_seq_value(s.drop_last()) * 16 + hex_digit_value(s.last())
    }
}

pub open spec fn all_hex_digits(s: Seq<u8>) -> bool {
    forall|i: int| 0 <= i < s.len() ==> is_hex_digit(#[trigger] s[i])
}

/// What parsing a header field as base-16 text accepts and returns: an
/// optional leading `+` followed by at least one hexadecimal digit of either
/// case, the whole field being digits. (A field that is not valid UTF-8
/// cannot consist of such digits, so no separate UTF-8 condition is needed.)
pub open spec fn spec_parse_hex_field(s: Seq<u8>) -> Option<nat> {
    let digits = if s.len() > 0 && s[0] == 43 {
        s.subrange(1, s.len() as int)
    } else {
        s
    };
    if digits.len() > 0 && all_hex_digits(digits) {
        Some(hex_seq_value(digits))
    } else {
        None
    }
}

pub open spec fn pow16(n: nat) -> nat
    decreases n,
{
    if n == 0 {
        1
    } else {
        16 * pow16((n - 1) as nat)
    }
}

pub proof fn lemma_pow16_le(a: nat, b: nat)
    requires
        a <= b,
    ensures
        pow16(a) <= pow16(b),
    decreases b,
{
    if a < b {
        lemma_pow16_le(a, (b - 1) as nat);
        assert(pow16(b) == 16 * pow16((b - 1) as nat));
    }
}

pub proof fn lemma_hex_seq_value_bound(s: Seq<u8>)
    ensures
        hex_seq_value(s) < pow16(s.len()),
    decreases s.len(),
{
    if s.len() > 0 {
        lemma_hex_seq_value_bound(s.drop_last());
        assert(hex_digit_value(s.last()) <= 15);
        assert(pow16(s.len()) == 16 * pow16((s.len() - 1) as nat));
    }
}

/// Parses a fixed-width ASCII-hexadecimal header field.
pub fn parse_hex_field(s: &[u8]) -> (r: Option<usize>)
    requires
        s@.len() <= 8,
    ensures
        r is Some <==> spec_parse_hex_field(s@) is Some,
        r matches Some(v) ==> spec_parse_hex_field(s@) == Some(v as nat),
{
    let len = s.len();
    if len == 0 {
        return None;
    }
    let start: usize = if *vstd::slice::slice_index_get(s, 0) == 43 {
        1
    } else {
        0
    };
    if start == len {
        // a bare sign with no digits
        proof {
            assert(s@.subrange(1, s@.len() as int).len() == 0);
        }
        return None;
    }
    let ghost digits: Seq<u8> = s@.subrange(start as int, len as int);
    proof {
        if start == 1 {
            assert(digits =~= s@.subrange(1, s@.len() as int));
        } else {
            assert(digits =~= s@);
        }
    }
    let mut value: usize = 0;
    let mut i: usize = start;
    while i < len
        invariant
            start <= i <= len,
            len == s@.len() <= 8,
            start <= 1,
            start < len,
            s@[0] == 43 <==> start == 1,
            digits == s@.subrange(start as int, len as int),
            all_hex_digits(s@.subrange(start as int, i as int)),
            value == hex_seq_value(s@.subrange(start as int, i as int)),
            value < pow16((i - start) as nat),
        decreases len - i,
    {
        let b = *vstd::slice::slice_index_get(s, i);
        let d: usize = if 48 <= b && b <= 57 {
            (b - 48) as usize
        } else if 97 <= b && b <= 102 {
            (b - 87) as usize
        } else if 65 <= b && b <= 70 {
            (b - 55) as usize
        } else {
            proof {
                assert(digits[i - start] == s@[i as int]);
                assert(!is_hex_digit(digits[i - start]));
                assert(!all_hex_digits(digits));
            }
            return None;
        };
        proof {
            let pre = s@.subrange(start as int, i as int);
            let post = s@.subrange(start as int, i + 1);
            assert(post.drop_last() =~= pre);
            assert(post.last() == s@[i as int]);
            lemma_pow16_le(((i + 1) - start) as nat, 8);
            assert(pow16(8) == 0x1_0000_0000) by {
                reveal_with_fuel(pow16, 9);
            }
            assert(pow16(((i + 1) - start) as nat) == 16 * pow16((i - start) as nat));
        }
        value = value * 16 + d;
        i = i + 1;
    }
    proof {
        assert(s@.subrange(start as int, i as int) =~= digits);
    }
    Some(value)
}

fn hex_digit_char(d: u8) -> (c: u8)
    requires
        d < 16,
    ensures
        is_hex_digit(c),
        hex_digit_value(c) == d as nat,
{
    if d < 10 {
        d + 48
    } else {
        d + 87
    }
}

proof fn lemma_hex_unfold_step(v: int, p: int)
    requires
        v >= 0,
        p >= 1,
    ensures
        v / p == (v / (p * 16)) * 16 + (v / p) % 16,
{
    vstd::arithmetic::div_mod::lemma_div_denominator(v, p, 16);
    vstd::arithmetic::div_mod::lemma_fundamental_div_mod(v / p, 16);
}

/// Encodes a value as exactly eight lowercase hexadecimal digits, the way
/// the archive format writes its numeric header fields.
pub fn encode_hex_field(value: usize) -> (r: Vec<u8>)
    requires
        value <= 0xffff_ffff,
    ensures
        r@.len() == 8,
        all_hex_digits(r@),
        hex_seq_value(r@) == value,
        spec_parse_hex_field(r@) == Some(value as nat),
{
    let mut r: Vec<u8> = Vec::new();
    let mut p: usize = 0x1000_0000;
    let mut i: usize = 0;
    proof {
        assert(pow16(7) == 0x1000_0000) by {
            reveal_with_fuel(pow16, 9);
        }
    }
    while i < 8
        invariant
            i <= 8,
            value <= 0xffff_ffff,
            r@.len() == i,
            all_hex_digits(r@),
            i < 8 ==> p == pow16((7 - i) as nat),
            hex_seq_value(r@) == if i == 0 { 0int } else { value as int / (pow16((8 - i) as nat) as int) },
        decreases 8 - i,
    {
        proof {
            reveal_with_fuel(pow16, 9);
        }
        let d: usize = (value / p) % 16;
        let c = hex_digit_char(d as u8);
        proof {
            let old_r = r@;
            assert(old_r.push(c).drop_last() =~= old_r);
            lemma_hex_unfold_step(value as int, p as int);
            if i < 7 {
                assert(pow16((8 - (i + 1)) as nat) == pow16((7 - i) as nat));
            }
            if i == 0 {
                // the leading digit is the whole quotient: value / 16^7 < 16
                assert(p == 0x1000_0000) by {
                    reveal_with_fuel(pow16, 9);
                }
                assert(value as int / (p as int) < 16) by {
                    vstd::arithmetic::div_mod::lemma_div_is_ordered(value as int, 0xffff_ffff, p as int);
                    assert(0xffff_ffffint / 0x1000_0000int == 15);
                }
                assert((value as int / (p as int)) % 16 == value as int / (p as int)) by {
                    vstd::arithmetic::div_mod::lemma_small_mod((value as int / (p as int)) as nat, 16);
                }
            } else {
                assert(value as int / ((p * 16) as int) == value as int / (pow16((8 - i) as nat) as int));
            }
        }
        r.push(c);
        if i < 7 {
            p = p / 16;
        }
        i = i + 1;
    }
    proof {
        reveal_with_fuel(pow16, 9);
        assert(hex_seq_value(r@) == value as int / 1);
        assert(value as int / 1 == value) by {
            vstd::arithmetic::div_mod::lemma_div_basics(value as int);
        }
        assert(r@[0] != 43);
        assert(spec_parse_hex_field(r@) == Some(hex_seq_value(r@)));
    }
    r
}

} // verus!
