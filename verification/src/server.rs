//! The MCP endpoint's settings: which port it listens on, which browser
//! origins may call it, and how a workspace token is written out.

use vstd::prelude::*;
use crate::native_input::{decimal_value, lemma_decimal_value_nonneg};
use crate::text::{all_digits, chars_of, dec, dec_chars, extend_chars, is_digit, string_of};

verus! {

pub const DEFAULT_PORT: u16 = 3434;

/// `str::parse::<u16>`: an optional `+` and at least one ASCII digit, with a
/// value that fits in 16 bits.
pub open spec fn parse_u16_spec(s: Seq<char>) -> Option<u16> {
    let digits = if s.len() > 0 && s[0] == '+' { s.drop_first() } else { s };
    if digits.len() > 0 && all_digits(digits) && decimal_value(digits) <= u16::MAX {
        Some(decimal_value(digits) as u16)
    } else {
        None
    }
}

pub fn parse_u16(s: &str) -> (r: Option<u16>)
    ensures
        r == parse_u16_spec(s@),
{
    let c = chars_of(s);
    let start: usize = if c.len() > 0 && c[0] == '+' { 1 } else { 0 };
    let ghost digits = if c@.len() > 0 && c@[0] == '+' { c@.drop_first() } else { c@ };
    assert(digits =~= c@.skip(start as int));
    if start == c.len() {
        return None;
    }
    let mut v: u32 = 0;
    let mut i: usize = start;
    while i < c.len()
        invariant
            start <= i <= c@.len(),
            c@ == s@,
            digits == (if s@.len() > 0 && s@[0] == '+' { s@.drop_first() } else { s@ }),
            digits == c@.skip(start as int),
            all_digits(c@.subrange(start as int, i as int)),
            v == decimal_value(c@.subrange(start as int, i as int)),
            v <= u16::MAX,
        decreases c@.len() - i,
    {
        let ch = c[i];
        let ghost before = c@.subrange(start as int, i as int);
        let ghost after = c@.subrange(start as int, i + 1);
        assert(after.drop_last() =~= before);
        assert(after.last() == ch);
        if !('0' <= ch && ch <= '9') {
            proof {
                assert(digits[i - start] == c@[i as int]);
                assert(!is_digit(digits[i - start]));
                assert(!all_digits(digits));
            }
            return None;
        }
        let d = (ch as u32) - ('0' as u32);
        let nv = v * 10 + d;
        if nv > 65535 {
            proof {
                assert(all_digits(after)) by {
                    assert forall|k: int| 0 <= k < after.len() implies is_digit(#[trigger] after[k]) by {
                        if k < before.len() {
                            assert(after[k] == before[k]);
                        }
                    }
                }
                lemma_prefix_value_bound(digits, (i + 1 - start) as int);
                assert(digits.take((i + 1 - start) as int) =~= after);
                assert(decimal_value(after) == v * 10 + d);
            }
            return None;
        }
        v = nv;
        i = i + 1;
        proof {
            assert forall|k: int| 0 <= k < after.len() implies is_digit(#[trigger] after[k]) by {
                if k < before.len() {
                    assert(after[k] == before[k]);
                }
            }
        }
    }
    assert(c@.subrange(start as int, c@.len() as int) =~= digits);
    Some(v as u16)
}

/// With all digits, a longer prefix never has a smaller value, so once a
/// prefix passes 16 bits the whole text does.
proof fn lemma_prefix_value_bound(d: Seq<char>, k: int)
    requires
        0 <= k <= d.len(),
    ensures
        all_digits(d) && all_digits(d.take(k)) ==> decimal_value(d) >= decimal_value(d.take(k)),
    decreases d.len() - k,
{
    if k < d.len() && all_digits(d) && all_digits(d.take(k)) {
        assert(all_digits(d.take(k + 1))) by {
            assert forall|j: int| 0 <= j < d.take(k + 1).len() implies is_digit(#[trigger] d.take(k + 1)[j]) by {
                assert(d.take(k + 1)[j] == d[j]);
            }
        }
        lemma_prefix_value_bound(d, k + 1);
        assert(d.take(k + 1).drop_last() =~= d.take(k));
        lemma_decimal_value_nonneg(d.take(k));
        assert(is_digit(d[k]));
    } else if k == d.len() {
        assert(d.take(k) =~= d);
    }
}

/// The port: the configured value when it parses, else `DEFAULT_PORT`.
pub fn port_from(configured: Option<&str>) -> (r: u16)
    ensures
        r == match configured {
            Some(s) => match parse_u16_spec(s@) {
                Some(p) => p,
                None => DEFAULT_PORT,
            },
            None => DEFAULT_PORT,
        },
{
    match configured {
        Some(s) => match parse_u16(s) {
            Some(p) => p,
            None => DEFAULT_PORT,
        },
        None => DEFAULT_PORT,
    }
}

/// The origins a browser page may call the endpoint from: the loopback names
/// of this port. Requests without an `Origin` header (command-line clients)
/// are not affected.
pub open spec fn allowed_origins_spec(port: u16) -> Seq<Seq<char>> {
    seq![
        "http://localhost:"@ + dec(port as nat),
        "http://127.0.0.1:"@ + dec(port as nat),
        "http://[::1]:"@ + dec(port as nat),
    ]
}

pub fn allowed_origins(port: u16) -> (r: Vec<String>)
    ensures
        r@.len() == 3,
        forall|i: int| 0 <= i < 3 ==> (#[trigger] r@[i])@ == allowed_origins_spec(port)[i],
{
    let digits = dec_chars(port as u64);
    let mut a = chars_of("http://localhost:");
    extend_chars(&mut a, digits.as_slice());
    let mut b = chars_of("http://127.0.0.1:");
    extend_chars(&mut b, digits.as_slice());
    let mut c = chars_of("http://[::1]:");
    extend_chars(&mut c, digits.as_slice());
    let mut r: Vec<String> = Vec::new();
    r.push(string_of(a.as_slice()));
    r.push(string_of(b.as_slice()));
    r.push(string_of(c.as_slice()));
    r
}

/// Lowercase hex digit of a value below 16.
pub open spec fn hex_digit(v: int) -> char {
    if v < 10 { (('0' as int) + v) as char } else { (('a' as int) + v - 10) as char }
}

/// Bytes written as two lowercase hex digits each.
pub open spec fn hex_spec(b: Seq<u8>) -> Seq<char>
    decreases b.len(),
{
    if b.len() == 0 {
        Seq::empty()
    } else {
        hex_spec(b.drop_last()) + seq![hex_digit((b.last() / 16) as int), hex_digit((b.last() % 16) as int)]
    }
}

fn hex_digit_exec(v: u8) -> (r: char)
    requires
        v < 16,
    ensures
        r == hex_digit(v as int),
{
    if v < 10 {
        ((48u8 + v) as char)
    } else {
        ((87u8 + v) as char)
    }
}

/// A workspace token from random bytes: their lowercase hex.
pub fn hex_token(bytes: &[u8]) -> (r: String)
    ensures
        r@ == hex_spec(bytes@),
{
    let mut out: Vec<char> = Vec::new();
    let mut i: usize = 0;
    while i < bytes.len()
        invariant
            i <= bytes@.len(),
            out@ == hex_spec(bytes@.take(i as int)),
        decreases bytes@.len() - i,
    {
        let b = bytes[i];
        out.push(hex_digit_exec(b / 16));
        out.push(hex_digit_exec(b % 16));
        proof {
            assert(bytes@.take(i + 1).drop_last() =~= bytes@.take(i as int));
            assert(out@ =~= hex_spec(bytes@.take(i + 1)));
        }
        i = i + 1;
    }
    assert(bytes@.take(bytes@.len() as int) =~= bytes@);
    string_of(out.as_slice())
}

/// A browser page may reach the endpoint only from the loopback names of its
/// own port.
pub proof fn law_origins_are_loopback_on_port(port: u16, i: int)
    requires
        0 <= i < 3,
    ensures
        allowed_origins_spec(port)[i] == "http://localhost:"@ + dec(port as nat) || allowed_origins_spec(port)[i]
            == "http://127.0.0.1:"@ + dec(port as nat) || allowed_origins_spec(port)[i] == "http://[::1]:"@ + dec(
            port as nat,
        ),
{
}

/// A token from `n` bytes has `2n` characters, each a lowercase hex digit.
pub proof fn law_token_shape(b: Seq<u8>)
    ensures
        hex_spec(b).len() == 2 * b.len(),
        forall|i: int| 0 <= i < hex_spec(b).len() ==> ('0' <= #[trigger] hex_spec(b)[i] <= '9' || 'a' <= hex_spec(b)[i] <= 'f'),
    decreases b.len(),
{
    if b.len() > 0 {
        law_token_shape(b.drop_last());
        let p = hex_spec(b.drop_last());
        let q = seq![hex_digit((b.last() / 16) as int), hex_digit((b.last() % 16) as int)];
        assert forall|i: int| 0 <= i < hex_spec(b).len() implies ('0' <= #[trigger] hex_spec(b)[i] <= '9' || 'a'
            <= hex_spec(b)[i] <= 'f') by {
            if i < p.len() {
                assert(hex_spec(b)[i] == p[i]);
            } else {
                assert(hex_spec(b)[i] == q[i - p.len()]);
            }
        }
    }
}

} // verus!
