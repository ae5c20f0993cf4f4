//! Reading the workspace number out of a workspace name.
//!
//! A workspace name starts with its number: the first whitespace-separated
//! token of the name, read as a signed decimal. The scan works on the UTF-8
//! bytes of the name; since no whitespace byte ever occurs inside a
//! multi-byte character, taking the token at the byte level is exact.
//! Whitespace here is the ASCII kind (bytes 9 through 13 and 32).

use vstd::prelude::*;
use vstd::string::StringSliceAdditionalSpecFns;

verus! {

/// ASCII whitespace, as a byte of a UTF-8 string.
pub open spec fn is_blank_byte(b: u8) -> bool {
    b == 32 || (9 <= b && b <= 13)
}

/// An ASCII decimal digit.
pub open spec fn is_digit_byte(b: u8) -> bool {
    48 <= b <= 57
}

/// Every byte of the sequence is a decimal digit.
pub open spec fn all_digits(s: Seq<u8>) -> bool {
    forall|i: int| 0 <= i < s.len() ==> is_digit_byte(s[i])
}

/// How many whitespace bytes the sequence starts with.
pub open spec fn lead_blanks(bytes: Seq<u8>) -> int
    decreases bytes.len(),
{
    if bytes.len() == 0 || !is_blank_byte(bytes[0]) {
        0
    } else {
        1 + lead_blanks(bytes.drop_first())
    }
}

/// How long the token at the head of the sequence is: the bytes up to the
/// first whitespace byte.
pub open spec fn token_len(bytes: Seq<u8>) -> int
    decreases bytes.len(),
{
    if bytes.len() == 0 || is_blank_byte(bytes[0]) {
        0
    } else {
        1 + token_len(bytes.drop_first())
    }
}

/// The value of a digit sequence read as an unsigned decimal.
pub open spec fn digits_val(s: Seq<u8>) -> int
    decreases s.len(),
{
    if s.len() == 0 {
        0
    } else {
        digits_val(s.drop_last()) * 10 + (s.last() - 48)
    }
}

/// A signed magnitude, admitted only when it fits an `i32`.
pub open spec fn signed_in_range(neg: bool, digs: Seq<u8>) -> Option<int> {
    if digs.len() == 0 || !all_digits(digs) {
        None
    } else {
        let v: int = if neg {
            -digits_val(digs)
        } else {
            digits_val(digs)
        };
        if -2147483648 <= v <= 2147483647 {
            Some(v)
        } else {
            None
        }
    }
}

/// The token read as a signed decimal: an optional sign, then one or more
/// digits, the value within `i32` range.
pub open spec fn parse_i32_spec(tok: Seq<u8>) -> Option<int> {
    if tok.len() > 0 && tok[0] == 45 {
        signed_in_range(true, tok.drop_first())
    } else if tok.len() > 0 && tok[0] == 43 {
        signed_in_range(false, tok.drop_first())
    } else {
        signed_in_range(false, tok)
    }
}

/// The number at the head of a name's bytes: leading whitespace skipped, the
/// first token read as a signed decimal.
pub open spec fn leading_number(bytes: Seq<u8>) -> Option<int> {
    let rest = bytes.skip(lead_blanks(bytes));
    parse_i32_spec(rest.take(token_len(rest)))
}

/// The count of leading whitespace bytes is the first position holding none.
proof fn lemma_lead_blanks_at(bytes: Seq<u8>, s: int)
    requires
        0 <= s <= bytes.len(),
        forall|i: int| 0 <= i < s ==> is_blank_byte(bytes[i]),
        s < bytes.len() ==> !is_blank_byte(bytes[s]),
    ensures
        lead_blanks(bytes) == s,
    decreases bytes.len(),
{
    if bytes.len() != 0 && is_blank_byte(bytes[0]) {
        let d = bytes.drop_first();
        assert(forall|k: int| 0 <= k < d.len() ==> d[k] == bytes[k + 1]);
        lemma_lead_blanks_at(d, s - 1);
    }
}

/// The token's length is the first position holding whitespace.
proof fn lemma_token_len_at(bytes: Seq<u8>, e: int)
    requires
        0 <= e <= bytes.len(),
        forall|i: int| 0 <= i < e ==> !is_blank_byte(bytes[i]),
        e < bytes.len() ==> is_blank_byte(bytes[e]),
    ensures
        token_len(bytes) == e,
    decreases bytes.len(),
{
    if bytes.len() != 0 && !is_blank_byte(bytes[0]) {
        let d = bytes.drop_first();
        assert(forall|k: int| 0 <= k < d.len() ==> d[k] == bytes[k + 1]);
        lemma_token_len_at(d, e - 1);
    }
}

/// Reads the workspace number off the front of a workspace name, as the
/// compositor writes it: the name's first whitespace-separated token, parsed
/// as a signed decimal. Nothing is returned when the token is missing,
/// malformed, or out of `i32` range.
pub fn workspace_number(name: &str) -> (r: Option<i32>)
    ensures
        match r {
            Some(v) => leading_number(name.spec_bytes()) == Some(v as int),
            None => leading_number(name.spec_bytes()) is None,
        },
{
    let b = name.as_bytes();
    let ghost bs = name.spec_bytes();
    let mut s: usize = 0;
    while s < b.len() && blank_byte(b[s])
        invariant
            s <= bs.len(),
            b@ == bs,
            forall|i: int| 0 <= i < s ==> is_blank_byte(bs[i]),
        decreases bs.len() - s,
    {
        s += 1;
    }
    proof {
        lemma_lead_blanks_at(bs, s as int);
    }
    let ghost rest = bs.skip(s as int);
    proof {
        assert(forall|k: int| 0 <= k < rest.len() ==> rest[k] == bs[k + s]);
    }
    let mut e: usize = s;
    while e < b.len() && !blank_byte(b[e])
        invariant
            s <= e <= bs.len(),
            b@ == bs,
            forall|i: int| s <= i < e ==> !is_blank_byte(bs[i]),
        decreases bs.len() - e,
    {
        e += 1;
    }
    proof {
        assert(forall|k: int| 0 <= k < rest.len() ==> rest[k] == bs[k + s]);
        lemma_token_len_at(rest, e - s);
        assert(rest.take(e - s) =~= bs.subrange(s as int, e as int));
    }
    let ghost tok = bs.subrange(s as int, e as int);
    let mut p: usize = s;
    let mut neg = false;
    if s < e && (b[s] == 43 || b[s] == 45) {
        neg = b[s] == 45;
        p = s + 1;
        proof {
            assert(tok.drop_first() =~= bs.subrange(p as int, e as int));
        }
    }
    let ghost p0 = p as int;
    let ghost digs = bs.subrange(p0, e as int);
    if p >= e {
        return None;
    }
    proof {
        assert(leading_number(bs) == signed_in_range(neg, digs));
    }
    let mut acc: i64 = 0;
    let mut big = false;
    let mut i: usize = p;
    while i < e
        invariant
            0 <= p0 <= i <= e <= bs.len(),
            bs == name.spec_bytes(),
            b@ == bs,
            digs == bs.subrange(p0, e as int),
            leading_number(bs) == signed_in_range(neg, digs),
            all_digits(bs.subrange(p0, i as int)),
            !big ==> acc == digits_val(bs.subrange(p0, i as int)) && 0 <= acc <= 2147483648,
            big ==> digits_val(bs.subrange(p0, i as int)) > 2147483648,
        decreases e - i,
    {
        let c = b[i];
        if c < 48 || c > 57 {
            proof {
                assert(digs[i - p0] == c);
                assert(!all_digits(digs));
                assert(signed_in_range(neg, digs) is None);
            }
            return None;
        }
        let ghost before = bs.subrange(p0, i as int);
        if !big {
            acc = acc * 10 + (c - 48) as i64;
            if acc > 2147483648 {
                big = true;
            }
        }
        i += 1;
        proof {
            let grown = bs.subrange(p0, i as int);
            assert(grown.drop_last() =~= before);
            assert(grown.last() == c);
            assert(digits_val(grown) == digits_val(before) * 10 + (c - 48));
        }
    }
    proof {
        assert(bs.subrange(p0, i as int) == digs);
    }
    if big {
        return None;
    }
    if neg {
        let v: i64 = -acc;
        Some(v as i32)
    } else {
        if acc > 2147483647 {
            None
        } else {
            Some(acc as i32)
        }
    }
}

/// Whether a byte is ASCII whitespace.
fn blank_byte(c: u8) -> (r: bool)
    ensures
        r == is_blank_byte(c),
{
    c == 32 || (9 <= c && c <= 13)
}

} // verus!
