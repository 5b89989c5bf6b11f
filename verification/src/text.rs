//! Verified rendering of keys into error-message text.
//!
//! The no-peer fetcher names the key it failed on in every error message.
//! These builders construct that text in verified code, each pinned to a spec
//! function over the key's value: numbers in decimal, words and byte strings
//! in fixed-width hexadecimal, slices as bracketed, comma-separated lists.

use vstd::prelude::*;

use crate::hash::{H160, H256};
use vstd::string::StringExecFns;

verus! {

/// The single digit (decimal or hexadecimal) for a value below sixteen;
/// values sixteen and above all render as the last digit and are never used.
pub open spec fn digit_text(n: u64) -> Seq<char> {
    if n == 0 {
        "0"@
    } else if n == 1 {
        "1"@
    } else if n == 2 {
        "2"@
    } else if n == 3 {
        "3"@
    } else if n == 4 {
        "4"@
    } else if n == 5 {
        "5"@
    } else if n == 6 {
        "6"@
    } else if n == 7 {
        "7"@
    } else if n == 8 {
        "8"@
    } else if n == 9 {
        "9"@
    } else if n == 10 {
        "a"@
    } else if n == 11 {
        "b"@
    } else if n == 12 {
        "c"@
    } else if n == 13 {
        "d"@
    } else if n == 14 {
        "e"@
    } else {
        "f"@
    }
}

/// The decimal digits of `n`, most significant first, no leading zeros.
pub open spec fn dec_text(n: u64) -> Seq<char>
    decreases n,
{
    if n < 10 {
        digit_text(n)
    } else {
        dec_text(n / 10) + digit_text(n % 10)
    }
}

/// The low `digits` hexadecimal digits of `n`, most significant first,
/// zero-padded to that width.
pub open spec fn hex_text(n: u64, digits: nat) -> Seq<char>
    decreases digits,
{
    if digits == 0 {
        Seq::empty()
    } else {
        hex_text(n / 16, (digits - 1) as nat) + digit_text(n % 16)
    }
}

/// A 256-bit word as `0x` and 64 hexadecimal digits, limbs in order.
pub open spec fn h256_text(h: H256) -> Seq<char> {
    "0x"@ + hex_text(h.x0, 16) + hex_text(h.x1, 16) + hex_text(h.x2, 16) + hex_text(h.x3, 16)
}

/// A 160-bit word as `0x` and 40 hexadecimal digits, limbs in order.
pub open spec fn h160_text(a: H160) -> Seq<char> {
    "0x"@ + hex_text(a.x0, 16) + hex_text(a.x1, 16) + hex_text(a.x2 as u64, 8)
}

/// The bytes of `s` in decimal, comma-separated, without brackets.
pub open spec fn byte_items_text(s: Seq<u8>) -> Seq<char>
    decreases s.len(),
{
    if s.len() == 0 {
        Seq::empty()
    } else if s.len() == 1 {
        dec_text(s[0] as u64)
    } else {
        byte_items_text(s.drop_last()) + ", "@ + dec_text(s.last() as u64)
    }
}

/// The words of `s` in hexadecimal, comma-separated, without brackets.
pub open spec fn h256_items_text(s: Seq<H256>) -> Seq<char>
    decreases s.len(),
{
    if s.len() == 0 {
        Seq::empty()
    } else if s.len() == 1 {
        h256_text(s[0])
    } else {
        h256_items_text(s.drop_last()) + ", "@ + h256_text(s.last())
    }
}

/// The one-digit table behind [`digit_text`].
fn digit(n: u64) -> (r: &'static str)
    requires
        n < 16,
    ensures
        r@ == digit_text(n),
{
    match n {
        0 => "0",
        1 => "1",
        2 => "2",
        3 => "3",
        4 => "4",
        5 => "5",
        6 => "6",
        7 => "7",
        8 => "8",
        9 => "9",
        10 => "a",
        11 => "b",
        12 => "c",
        13 => "d",
        14 => "e",
        _ => "f",
    }
}

/// Append the decimal rendering of `n`.
pub fn push_dec(out: &mut String, n: u64)
    ensures
        final(out)@ == old(out)@ + dec_text(n),
    decreases n,
{
    if n < 10 {
        out.append(digit(n));
    } else {
        push_dec(out, n / 10);
        out.append(digit(n % 10));
        proof {
            assert(out@ =~= old(out)@ + dec_text(n));
        }
    }
}

/// Append the low `digits` hexadecimal digits of `n`, zero-padded.
pub fn push_hex(out: &mut String, n: u64, digits: u64)
    requires
        digits <= 16,
    ensures
        final(out)@ == old(out)@ + hex_text(n, digits as nat),
    decreases digits,
{
    if digits == 0 {
        proof {
            assert(out@ =~= old(out)@ + hex_text(n, 0));
        }
    } else {
        push_hex(out, n / 16, digits - 1);
        out.append(digit(n % 16));
        proof {
            assert(out@ =~= old(out)@ + hex_text(n, digits as nat));
        }
    }
}

/// Append the rendering of a 256-bit word.
pub fn push_h256(out: &mut String, h: &H256)
    ensures
        final(out)@ == old(out)@ + h256_text(*h),
{
    out.append("0x");
    push_hex(out, h.x0, 16);
    push_hex(out, h.x1, 16);
    push_hex(out, h.x2, 16);
    push_hex(out, h.x3, 16);
    proof {
        assert(out@ =~= old(out)@ + h256_text(*h));
    }
}

/// Append the rendering of a 160-bit word.
pub fn push_h160(out: &mut String, a: &H160)
    ensures
        final(out)@ == old(out)@ + h160_text(*a),
{
    out.append("0x");
    push_hex(out, a.x0, 16);
    push_hex(out, a.x1, 16);
    push_hex(out, a.x2 as u64, 8);
    proof {
        assert(out@ =~= old(out)@ + h160_text(*a));
    }
}

/// Append the first `len` bytes of `s` as a comma-separated decimal list.
fn push_byte_items(out: &mut String, s: &[u8], len: usize)
    requires
        len <= s@.len(),
    ensures
        final(out)@ == old(out)@ + byte_items_text(s@.subrange(0, len as int)),
    decreases len,
{
    let ghost pre = s@.subrange(0, len as int);
    if len == 0 {
        proof {
            assert(out@ =~= old(out)@ + byte_items_text(pre));
        }
    } else if len == 1 {
        push_dec(out, s[0] as u64);
        proof {
            assert(pre.len() == 1 && pre[0] == s@[0]);
        }
    } else {
        push_byte_items(out, s, len - 1);
        out.append(", ");
        push_dec(out, s[len - 1] as u64);
        proof {
            assert(pre.drop_last() =~= s@.subrange(0, len - 1));
            assert(pre.last() == s@[len - 1]);
            assert(out@ =~= old(out)@ + byte_items_text(pre));
        }
    }
}

/// Append the first `len` words of `s` as a comma-separated hexadecimal list.
fn push_h256_items(out: &mut String, s: &[H256], len: usize)
    requires
        len <= s@.len(),
    ensures
        final(out)@ == old(out)@ + h256_items_text(s@.subrange(0, len as int)),
    decreases len,
{
    let ghost pre = s@.subrange(0, len as int);
    if len == 0 {
        proof {
            assert(out@ =~= old(out)@ + h256_items_text(pre));
        }
    } else if len == 1 {
        push_h256(out, &s[0]);
        proof {
            assert(pre.len() == 1 && pre[0] == s@[0]);
        }
    } else {
        push_h256_items(out, s, len - 1);
        out.append(", ");
        push_h256(out, &s[len - 1]);
        proof {
            assert(pre.drop_last() =~= s@.subrange(0, len - 1));
            assert(pre.last() == s@[len - 1]);
            assert(out@ =~= old(out)@ + h256_items_text(pre));
        }
    }
}

/// A byte slice rendered as the decimal list `[b0, b1, ...]`.
pub open spec fn bytes_list_text(s: Seq<u8>) -> Seq<char> {
    "["@ + byte_items_text(s) + "]"@
}

/// Append the bracketed decimal list rendering of `s`.
pub fn push_bytes_list(out: &mut String, s: &[u8])
    ensures
        final(out)@ == old(out)@ + bytes_list_text(s@),
{
    out.append("[");
    push_byte_items(out, s, s.len());
    out.append("]");
    proof {
        assert(s@.subrange(0, s@.len() as int) =~= s@);
        assert(out@ =~= old(out)@ + bytes_list_text(s@));
    }
}

/// A word slice rendered as the hexadecimal list `[0x.., 0x..]`.
pub open spec fn h256_list_text(s: Seq<H256>) -> Seq<char> {
    "["@ + h256_items_text(s) + "]"@
}

/// Append the bracketed hexadecimal list rendering of `s`.
pub fn push_h256_list(out: &mut String, s: &[H256])
    ensures
        final(out)@ == old(out)@ + h256_list_text(s@),
{
    out.append("[");
    push_h256_items(out, s, s.len());
    out.append("]");
    proof {
        assert(s@.subrange(0, s@.len() as int) =~= s@);
        assert(out@ =~= old(out)@ + h256_list_text(s@));
    }
}

} // verus!
