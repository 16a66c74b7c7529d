//! Sensitive data sanitization for MCP responses and proactive learning.
//!
//! Strips tokens/keys from URLs, detects sensitive pages, and redacts
//! sequences of digits that look like payment card numbers.

use vstd::prelude::*;
use crate::text::{
    ascii_lower_seq, chars_eq_ignore_ascii_case, chars_of, contains_chars, contains_seq,
    eq_ignore_ascii_case, extend_chars, extend_str, find_char, find_char_exec, find_chars,
    find_seq, is_digit, split_char, string_of, to_ascii_lower, ascii_lower,
};

verus! {

// ─────────────────────────────────────────────────────────────────────
// URL query parameters
// ─────────────────────────────────────────────────────────────────────

/// Query parameter names that commonly carry secrets. Values of these
/// parameters are replaced with `[REDACTED]` (names compared ASCII
/// case-insensitively).
pub open spec fn sensitive_param_names() -> Seq<&'static str> {
    seq![
        "token", "access_token", "refresh_token", "oauth_token", "api_key", "apikey", "apiKey",
        "key", "secret", "client_secret", "private_key", "password", "pwd", "passwd", "bearer",
        "auth", "authorization", "session_id", "sessionId", "sid", "code", "state", "card_number",
        "cc_number", "cvv", "cvc", "pan", "card_exp",
    ]
}

fn sensitive_param_names_exec() -> (r: Vec<&'static str>)
    ensures
        r@ == sensitive_param_names(),
{
    vec![
        "token", "access_token", "refresh_token", "oauth_token", "api_key", "apikey", "apiKey",
        "key", "secret", "client_secret", "private_key", "password", "pwd", "passwd", "bearer",
        "auth", "authorization", "session_id", "sessionId", "sid", "code", "state", "card_number",
        "cc_number", "cvv", "cvc", "pan", "card_exp",
    ]
}

/// A query parameter name whose value must be hidden.
pub open spec fn is_sensitive_param(key: Seq<char>) -> bool {
    exists|i: int|
        0 <= i < sensitive_param_names().len() && eq_ignore_ascii_case(
            key,
            #[trigger] sensitive_param_names()[i]@,
        )
}

pub fn is_sensitive_param_exec(key: &[char]) -> (r: bool)
    ensures
        r == is_sensitive_param(key@),
{
    let names = sensitive_param_names_exec();
    let mut i: usize = 0;
    while i < names.len()
        invariant
            names@ == sensitive_param_names(),
            i <= names@.len(),
            forall|j: int| 0 <= j < i ==> !eq_ignore_ascii_case(key@, #[trigger] names@[j]@),
        decreases names@.len() - i,
    {
        let name = chars_of(names[i]);
        if chars_eq_ignore_ascii_case(key, name.as_slice()) {
            return true;
        }
        i = i + 1;
    }
    false
}

/// The text that replaces a hidden value.
pub open spec fn redacted_value() -> Seq<char> {
    "=[REDACTED]"@
}

/// One `key=value` pair of a query, with the value hidden when the key is sensitive.
/// A piece with no `=` is kept as it is.
pub open spec fn sanitize_pair(p: Seq<char>) -> Seq<char> {
    match find_char(p, '=') {
        Some(e) => if is_sensitive_param(p.take(e)) {
            p.take(e) + redacted_value()
        } else {
            p
        },
        None => p,
    }
}

/// Every `&`-separated piece of a query passed through `sanitize_pair`,
/// joined again by `&`.
pub open spec fn sanitize_query(q: Seq<char>) -> Seq<char>
    decreases q.len(),
{
    match find_char(q, '&') {
        Some(i) => if 0 <= i < q.len() {
            sanitize_pair(q.take(i)) + seq!['&'] + sanitize_query(q.skip(i + 1))
        } else {
            q
        },
        None => sanitize_pair(q),
    }
}

/// `url` with the values of sensitive query parameters replaced by
/// `[REDACTED]`; the base, the other pieces of the query and the fragment
/// are kept. A URL with no `?` before its first `#` (no query at all, or a
/// `?` only inside the fragment), or whose query is empty, is returned as it is.
pub open spec fn sanitize_url_spec(url: Seq<char>) -> Seq<char> {
    match find_char(url, '?') {
        None => url,
        Some(q) => if fragment_first(url, q) {
            url
        } else {
            let no_frag = match find_char(url, '#') {
                Some(f) => url.take(f),
                None => url,
            };
            let frag = match find_char(url, '#') {
                Some(f) => url.skip(f),
                None => Seq::empty(),
            };
            let query = no_frag.skip(q + 1);
            if query.len() == 0 {
                url
            } else {
                url.take(q) + seq!['?'] + sanitize_query(query) + frag
            }
        },
    }
}

/// The first `#` of `url` comes before position `q`.
pub open spec fn fragment_first(url: Seq<char>, q: int) -> bool {
    match find_char(url, '#') {
        Some(f) => f < q,
        None => false,
    }
}

/// Copy of `v[a..b]`.
pub fn sub_chars(v: &[char], a: usize, b: usize) -> (r: Vec<char>)
    requires
        a <= b <= v@.len(),
    ensures
        r@ == v@.subrange(a as int, b as int),
{
    let mut r: Vec<char> = Vec::new();
    let mut i = a;
    while i < b
        invariant
            a <= i <= b,
            b <= v@.len(),
            r@ == v@.subrange(a as int, i as int),
        decreases b - i,
    {
        r.push(v[i]);
        i = i + 1;
        assert(r@ =~= v@.subrange(a as int, i as int));
    }
    r
}

fn sanitize_pair_into(p: &[char], out: &mut Vec<char>)
    ensures
        final(out)@ == old(out)@ + sanitize_pair(p@),
{
    match find_char_exec(p, '=') {
        Some(e) => {
            let key = sub_chars(p, 0, e);
            assert(key@ =~= p@.take(e as int));
            if is_sensitive_param_exec(key.as_slice()) {
                let ghost o = out@;
                extend_chars(out, key.as_slice());
                extend_str(out, "=[REDACTED]");
                assert(out@ =~= o + (key@ + redacted_value()));
            } else {
                extend_chars(out, p);
            }
        },
        None => {
            extend_chars(out, p);
        },
    }
}

fn sanitize_query_into(q: &[char], out: &mut Vec<char>)
    ensures
        final(out)@ == old(out)@ + sanitize_query(q@),
{
    let mut pos: usize = 0;
    assert(q@.skip(0) =~= q@);
    loop
        invariant
            pos <= q@.len(),
            old(out)@ + sanitize_query(q@) == out@ + sanitize_query(q@.skip(pos as int)),
        decreases q@.len() - pos,
    {
        let rest = sub_chars(q, pos, q.len());
        assert(rest@ =~= q@.skip(pos as int));
        match find_char_exec(rest.as_slice(), '&') {
            None => {
                sanitize_pair_into(rest.as_slice(), out);
                return;
            },
            Some(i) => {
                let piece = sub_chars(rest.as_slice(), 0, i);
                assert(piece@ =~= rest@.take(i as int));
                let ghost o = out@;
                sanitize_pair_into(piece.as_slice(), out);
                out.push('&');
                assert(rest@.skip(i + 1) =~= q@.skip(pos + i + 1));
                assert(sanitize_query(rest@) == sanitize_pair(piece@) + seq!['&']
                    + sanitize_query(rest@.skip(i + 1)));
                assert(out@ =~= o + sanitize_pair(piece@) + seq!['&']);
                assert(o + sanitize_query(rest@) =~= out@ + sanitize_query(rest@.skip(i + 1)));
                pos = pos + i + 1;
            },
        }
    }
}

/// Sanitize a URL by replacing sensitive query parameter values with `[REDACTED]`.
///
/// Preserves the URL structure (path, fragment, non-sensitive params) so the
/// sanitized URL still reads as the same address. A URL without a query
/// before its fragment is returned as it is.
pub fn sanitize_url(url: &str) -> (r: String)
    ensures
        r@ == sanitize_url_spec(url@),
{
    let u = chars_of(url);
    let q_pos = match find_char_exec(u.as_slice(), '?') {
        Some(q) => q,
        None => {
            return string_of(u.as_slice());
        },
    };
    let f = find_char_exec(u.as_slice(), '#');
    let nf_end = match f {
        Some(fp) => fp,
        None => u.len(),
    };
    if nf_end < q_pos {
        return string_of(u.as_slice());
    }
    assert(q_pos < nf_end);
    let query = sub_chars(u.as_slice(), q_pos + 1, nf_end);
    proof {
        let no_frag = match find_char(u@, '#') {
            Some(f) => u@.take(f),
            None => u@,
        };
        assert(query@ =~= no_frag.skip(q_pos + 1));
    }
    if query.len() == 0 {
        return string_of(u.as_slice());
    }
    let mut out = sub_chars(u.as_slice(), 0, q_pos);
    out.push('?');
    sanitize_query_into(query.as_slice(), &mut out);
    if let Some(fp) = f {
        let frag = sub_chars(u.as_slice(), fp, u.len());
        assert(frag@ =~= u@.skip(fp as int));
        extend_chars(&mut out, frag.as_slice());
    } else {
        assert(out@ =~= out@ + Seq::<char>::empty());
    }
    string_of(out.as_slice())
}

// ─────────────────────────────────────────────────────────────────────
// Sensitive pages
// ─────────────────────────────────────────────────────────────────────

/// URL path segments that indicate a sensitive page.
pub open spec fn sensitive_path_segments() -> Seq<&'static str> {
    seq![
        "/login", "/signin", "/sign-in", "/signup", "/sign-up", "/register", "/auth", "/oauth",
        "/callback", "/password", "/reset-password", "/forgot-password", "/2fa", "/mfa", "/otp",
        "/verify", "/verification", "/account/security", "/settings/security", "/billing",
        "/payment", "/checkout", "/add-card", "/card-details", "/payment-method", "/credit-card",
    ]
}

fn sensitive_path_segments_exec() -> (r: Vec<&'static str>)
    ensures
        r@ == sensitive_path_segments(),
{
    vec![
        "/login", "/signin", "/sign-in", "/signup", "/sign-up", "/register", "/auth", "/oauth",
        "/callback", "/password", "/reset-password", "/forgot-password", "/2fa", "/mfa", "/otp",
        "/verify", "/verification", "/account/security", "/settings/security", "/billing",
        "/payment", "/checkout", "/add-card", "/card-details", "/payment-method", "/credit-card",
    ]
}

/// The path part of a URL: what follows the host after `://` (`/` when the
/// host is not followed by one), or the whole text when there is no `://`.
pub open spec fn url_path(url: Seq<char>) -> Seq<char> {
    match find_seq(url, "://"@) {
        Some(p) => {
            let after = url.skip(p + 3);
            match find_char(after, '/') {
                Some(sl) => after.skip(sl),
                None => seq!['/'],
            }
        },
        None => url,
    }
}

/// The text before the first occurrence of `c`, or all of it.
pub open spec fn before_char(s: Seq<char>, c: char) -> Seq<char> {
    match find_char(s, c) {
        Some(i) => s.take(i),
        None => s,
    }
}

/// The lowercased path with query and fragment removed.
pub open spec fn page_path_key(url: Seq<char>) -> Seq<char> {
    ascii_lower_seq(before_char(before_char(url_path(url), '?'), '#'))
}

/// Login, auth, payment and similar pages: the path contains one of the
/// sensitive segments.
pub open spec fn is_sensitive_page_spec(url: Seq<char>) -> bool {
    exists|i: int|
        0 <= i < sensitive_path_segments().len() && contains_seq(
            page_path_key(url),
            #[trigger] sensitive_path_segments()[i]@,
        )
}

fn before_char_exec(s: Vec<char>, c: char) -> (r: Vec<char>)
    ensures
        r@ == before_char(s@, c),
{
    match find_char_exec(s.as_slice(), c) {
        Some(i) => {
            let r = sub_chars(s.as_slice(), 0, i);
            assert(r@ =~= s@.take(i as int));
            r
        },
        None => s,
    }
}

/// Check whether a URL points to a sensitive page (login, auth, payment, etc.).
pub fn is_sensitive_page(url: &str) -> (r: bool)
    ensures
        r == is_sensitive_page_spec(url@),
{
    let u = chars_of(url);
    let sep = chars_of("://");
    proof {
        reveal_strlit("://");
        assert(sep@.len() == 3);
    }
    let path = match find_chars(u.as_slice(), sep.as_slice()) {
        Some(pos) => {
            assert(pos + 3 <= u@.len());
            let ulen = u.len();
            assert(pos + 3 <= ulen);
            let after = sub_chars(u.as_slice(), pos + 3, u.len());
            assert(after@ =~= u@.skip(pos + 3));
            match find_char_exec(after.as_slice(), '/') {
                Some(slash) => {
                    let p = sub_chars(after.as_slice(), slash, after.len());
                    assert(p@ =~= after@.skip(slash as int));
                    p
                },
                None => {
                    let p = vec!['/'];
                    assert(p@ =~= seq!['/']);
                    p
                },
            }
        },
        None => u,
    };
    let p1 = before_char_exec(path, '?');
    let p2 = before_char_exec(p1, '#');
    let mut lower: Vec<char> = Vec::new();
    let mut k: usize = 0;
    while k < p2.len()
        invariant
            k <= p2@.len(),
            lower@ == ascii_lower_seq(p2@).take(k as int),
        decreases p2@.len() - k,
    {
        lower.push(to_ascii_lower(p2[k]));
        k = k + 1;
        assert(lower@ =~= ascii_lower_seq(p2@).take(k as int));
    }
    assert(lower@ =~= ascii_lower_seq(p2@));
    let segs = sensitive_path_segments_exec();
    let mut i: usize = 0;
    while i < segs.len()
        invariant
            segs@ == sensitive_path_segments(),
            lower@ == page_path_key(url@),
            i <= segs@.len(),
            forall|j: int| 0 <= j < i ==> !contains_seq(lower@, #[trigger] segs@[j]@),
        decreases segs@.len() - i,
    {
        let seg = chars_of(segs[i]);
        if contains_chars(lower.as_slice(), seg.as_slice()) {
            return true;
        }
        i = i + 1;
    }
    false
}

// ─────────────────────────────────────────────────────────────────────
// Card numbers
// ─────────────────────────────────────────────────────────────────────

/// Every byte is an ASCII digit.
pub open spec fn all_digit_bytes(d: Seq<u8>) -> bool {
    forall|i: int| 0 <= i < d.len() ==> 48 <= #[trigger] d[i] <= 57
}

/// Luhn term of the digit at position `i` counted from the right (0-based):
/// every second digit is doubled, and 9 is subtracted from a doubled value above 9.
pub open spec fn luhn_term(d: Seq<u8>, i: int) -> int {
    let n = d[d.len() - 1 - i] - 48;
    if i % 2 == 1 {
        if 2 * n > 9 {
            2 * n - 9
        } else {
            2 * n
        }
    } else {
        n
    }
}

/// Sum of the Luhn terms of the `k` rightmost digits.
pub open spec fn luhn_sum(d: Seq<u8>, k: int) -> int
    decreases k,
{
    if k <= 0 {
        0
    } else {
        luhn_sum(d, k - 1) + luhn_term(d, k - 1)
    }
}

/// Luhn mod-10 checksum (ISO/IEC 7812-1) on at least 13 digits.
pub open spec fn luhn_valid_spec(d: Seq<u8>) -> bool {
    d.len() >= 13 && luhn_sum(d, d.len() as int) % 10 == 0
}

proof fn lemma_luhn_sum_bound(d: Seq<u8>, k: int)
    requires
        all_digit_bytes(d),
        0 <= k <= d.len(),
    ensures
        0 <= luhn_sum(d, k) <= 9 * k,
    decreases k,
{
    if k > 0 {
        lemma_luhn_sum_bound(d, k - 1);
        assert(48 <= d[d.len() - 1 - (k - 1)] <= 57);
    }
}

/// Luhn mod-10 checksum validation (ISO/IEC 7812-1).
/// Used to distinguish real card numbers from arbitrary digit sequences.
pub fn luhn_valid(digits: &[u8]) -> (r: bool)
    requires
        all_digit_bytes(digits@),
        9 * digits@.len() <= u32::MAX,
    ensures
        r == luhn_valid_spec(digits@),
{
    if digits.len() < 13 {
        return false;
    }
    let len = digits.len();
    let mut sum: u32 = 0;
    let mut i: usize = 0;
    while i < len
        invariant
            len == digits@.len(),
            all_digit_bytes(digits@),
            9 * len <= u32::MAX,
            i <= len,
            sum == luhn_sum(digits@, i as int),
        decreases len - i,
    {
        proof {
            lemma_luhn_sum_bound(digits@, i as int);
            assert(48 <= digits@[len - 1 - i] <= 57);
        }
        let d = digits[len - 1 - i];
        let mut n: u32 = (d - 48u8) as u32;
        if i % 2 == 1 {
            n = n * 2;
            if n > 9 {
                n = n - 9;
            }
        }
        sum = sum + n;
        i = i + 1;
    }
    sum % 10 == 0
}

/// Known card brand ranges: Visa (4), Mastercard (51-55, 2221-2720), Amex (34/37),
/// Discover (6011/65/644-649), JCB (3528-3589), Diners (300-305/36/38), UnionPay (62).
pub open spec fn valid_iin_prefix_spec(d: Seq<u8>) -> bool {
    if d.len() == 0 {
        false
    } else {
        let d0 = d[0] - 48;
        if d0 == 4 || d0 == 6 {
            true
        } else if d0 == 3 || d0 == 5 {
            d.len() >= 2 && 0 <= d[1] - 48 <= 8
        } else if d0 == 2 {
            d.len() >= 4 && 2221 <= (d[0] - 48) * 1000 + (d[1] - 48) * 100 + (d[2] - 48) * 10 + (
            d[3] - 48) <= 2720
        } else {
            false
        }
    }
}

/// Check whether a digit sequence has a valid IIN (Issuer Identification Number) prefix.
pub fn valid_iin_prefix(digits: &[u8]) -> (r: bool)
    requires
        all_digit_bytes(digits@),
    ensures
        r == valid_iin_prefix_spec(digits@),
{
    if digits.len() == 0 {
        return false;
    }
    assert(48 <= digits@[0] <= 57);
    let d0 = digits[0] - 48u8;
    if d0 == 4 || d0 == 6 {
        true
    } else if d0 == 3 || d0 == 5 {
        if digits.len() >= 2 {
            assert(48 <= digits@[1] <= 57);
            digits[1] - 48u8 <= 8
        } else {
            false
        }
    } else if d0 == 2 {
        if digits.len() >= 4 {
            assert(48 <= digits@[1] <= 57);
            assert(48 <= digits@[2] <= 57);
            assert(48 <= digits@[3] <= 57);
            let prefix: u32 = (digits[0] - 48u8) as u32 * 1000 + (digits[1] - 48u8) as u32 * 100
                + (digits[2] - 48u8) as u32 * 10 + (digits[3] - 48u8) as u32;
            2221 <= prefix && prefix <= 2720
        } else {
            false
        }
    } else {
        false
    }
}


// ─────────────────────────────────────────────────────────────────────
// Card numbers in free text
// ─────────────────────────────────────────────────────────────────────

/// The byte of each (ASCII) character.
pub open spec fn char_bytes(d: Seq<char>) -> Seq<u8> {
    Seq::new(d.len(), |i: int| d[i] as u8)
}

/// Digits that form a card number: known brand prefix and a valid Luhn checksum.
pub open spec fn is_card_number(d: Seq<char>) -> bool {
    valid_iin_prefix_spec(char_bytes(d)) && luhn_valid_spec(char_bytes(d))
}

/// The text that replaces a card number.
pub open spec fn card_redacted() -> Seq<char> {
    "[CARD REDACTED]"@
}

/// End of the run of digits starting at `i`.
pub open spec fn digit_run_end(s: Seq<char>, i: int) -> int
    decreases s.len() - i,
{
    if 0 <= i < s.len() && is_digit(s[i]) {
        digit_run_end(s, i + 1)
    } else {
        i
    }
}

/// A space or dash between digit groups.
pub open spec fn is_group_sep(c: char) -> bool {
    c == ' ' || c == '-'
}

/// Collecting separator-connected digit groups after a group that ended at
/// `end`: while fewer than 19 digits are held and a separator followed by a
/// digit comes next, the next group's digits are taken (up to 19 in all).
/// Yields where the span ends and the digits collected.
pub open spec fn assemble_groups(s: Seq<char>, end: int, digits: Seq<char>) -> (int, Seq<char>)
    decreases s.len() - end, 0int,
{
    if digits.len() < 19 && 0 <= end && end + 1 < s.len() && is_group_sep(s[end]) && is_digit(
        s[end + 1],
    ) {
        take_group_digits(s, end + 1, digits)
    } else {
        (end, digits)
    }
}

/// Inside a digit group at `k`: digits are taken while fewer than 19 are held.
pub open spec fn take_group_digits(s: Seq<char>, k: int, digits: Seq<char>) -> (int, Seq<char>)
    decreases s.len() - k, 1int,
{
    if 0 <= k < s.len() && is_digit(s[k]) && digits.len() < 19 {
        take_group_digits(s, k + 1, digits.push(s[k]))
    } else {
        assemble_groups(s, k, digits)
    }
}

proof fn lemma_digit_run_end(s: Seq<char>, i: int)
    requires
        0 <= i <= s.len(),
    ensures
        i <= digit_run_end(s, i) <= s.len(),
        forall|k: int| i <= k < digit_run_end(s, i) ==> is_digit(#[trigger] s[k]),
        digit_run_end(s, i) < s.len() ==> !is_digit(s[digit_run_end(s, i)]),
    decreases s.len() - i,
{
    if i < s.len() && is_digit(s[i]) {
        lemma_digit_run_end(s, i + 1);
    }
}

proof fn lemma_assemble_groups(s: Seq<char>, end: int, digits: Seq<char>)
    requires
        0 <= end <= s.len(),
    ensures
        end <= assemble_groups(s, end, digits).0 <= s.len(),
    decreases s.len() - end, 0int,
{
    if digits.len() < 19 && end + 1 < s.len() && is_group_sep(s[end]) && is_digit(s[end + 1]) {
        lemma_take_group_digits(s, end + 1, digits);
    }
}

proof fn lemma_take_group_digits(s: Seq<char>, k: int, digits: Seq<char>)
    requires
        0 <= k <= s.len(),
    ensures
        k <= take_group_digits(s, k, digits).0 <= s.len(),
    decreases s.len() - k, 1int,
{
    if k < s.len() && is_digit(s[k]) && digits.len() < 19 {
        lemma_take_group_digits(s, k + 1, digits.push(s[k]));
    } else {
        lemma_assemble_groups(s, k, digits);
    }
}

/// The span of text that starts with the digit at `i` and the text that
/// replaces it: a run of more than 19 digits is kept; a run of 13..19 digits
/// is redacted when it is a card number; a shorter run is extended through
/// separator-connected groups, and the whole span is redacted when the
/// collected 13..19 digits are a card number.
pub open spec fn digit_span(s: Seq<char>, i: int) -> (int, Seq<char>) {
    let g = digit_run_end(s, i);
    if g - i > 19 {
        (g, s.subrange(i, g))
    } else if g - i >= 13 {
        (
            g,
            if is_card_number(s.subrange(i, g)) {
                card_redacted()
            } else {
                s.subrange(i, g)
            },
        )
    } else {
        let (e, d) = assemble_groups(s, g, s.subrange(i, g));
        (
            e,
            if 13 <= d.len() <= 19 && is_card_number(d) {
                card_redacted()
            } else {
                s.subrange(i, e)
            },
        )
    }
}

proof fn lemma_digit_span(s: Seq<char>, i: int)
    requires
        0 <= i < s.len(),
        is_digit(s[i]),
    ensures
        i < digit_span(s, i).0 <= s.len(),
{
    lemma_digit_run_end(s, i);
    lemma_digit_run_end(s, i + 1);
    let g = digit_run_end(s, i);
    lemma_assemble_groups(s, g, s.subrange(i, g));
}

#[via_fn]
proof fn sanitize_text_from_decreases(s: Seq<char>, i: int) {
    if 0 <= i < s.len() && is_digit(s[i]) {
        lemma_digit_span(s, i);
    }
}

/// The text from position `i` on, with every card-number span redacted.
pub open spec fn sanitize_text_from(s: Seq<char>, i: int) -> Seq<char>
    decreases s.len() - i,
    via sanitize_text_from_decreases
{
    if i < 0 || i >= s.len() {
        Seq::empty()
    } else if !is_digit(s[i]) {
        seq![s[i]] + sanitize_text_from(s, i + 1)
    } else {
        let (e, out) = digit_span(s, i);
        if i < e {
            out + sanitize_text_from(s, e)
        } else {
            Seq::empty()
        }
    }
}

/// The whole text with every card-number span redacted.
pub open spec fn sanitize_text_spec(s: Seq<char>) -> Seq<char> {
    sanitize_text_from(s, 0)
}

fn digit_bytes_of(d: &[char]) -> (r: Vec<u8>)
    requires
        forall|k: int| 0 <= k < d@.len() ==> is_digit(#[trigger] d@[k]),
    ensures
        r@ == char_bytes(d@),
        all_digit_bytes(r@),
{
    let mut r: Vec<u8> = Vec::new();
    let mut i: usize = 0;
    while i < d.len()
        invariant
            i <= d@.len(),
            forall|k: int| 0 <= k < d@.len() ==> is_digit(#[trigger] d@[k]),
            r@ == char_bytes(d@).take(i as int),
        decreases d@.len() - i,
    {
        let c = d[i];
        assert(is_digit(d@[i as int]));
        r.push(c as u8);
        i = i + 1;
        assert(r@ =~= char_bytes(d@).take(i as int));
    }
    assert(r@ =~= char_bytes(d@));
    proof {
        assert forall|k: int| 0 <= k < r@.len() implies 48 <= #[trigger] r@[k] <= 57 by {
            assert(is_digit(d@[k]));
        }
    }
    r
}

fn is_card_number_exec(d: &[char]) -> (r: bool)
    requires
        forall|k: int| 0 <= k < d@.len() ==> is_digit(#[trigger] d@[k]),
        d@.len() <= 19,
    ensures
        r == is_card_number(d@),
{
    let b = digit_bytes_of(d);
    valid_iin_prefix(b.as_slice()) && luhn_valid(b.as_slice())
}

/// The span starting with the digit at `i` (see `digit_span`).
fn digit_span_exec(s: &[char], i: usize) -> (r: (usize, Vec<char>))
    requires
        i < s@.len(),
        is_digit(s@[i as int]),
    ensures
        r.0 == digit_span(s@, i as int).0,
        r.1@ == digit_span(s@, i as int).1,
{
    let len = s.len();
    let mut j = i;
    while j < len && '0' <= s[j] && s[j] <= '9'
        invariant
            len == s@.len(),
            i <= j <= len,
            digit_run_end(s@, i as int) == digit_run_end(s@, j as int),
            forall|k: int| i <= k < j ==> is_digit(#[trigger] s@[k]),
        decreases len - j,
    {
        j = j + 1;
    }
    let g = j;
    assert(digit_run_end(s@, j as int) == j as int);
    if g - i > 19 {
        (g, sub_chars(s, i, g))
    } else if g - i >= 13 {
        let run = sub_chars(s, i, g);
        if is_card_number_exec(run.as_slice()) {
            let red = chars_of("[CARD REDACTED]");
            (g, red)
        } else {
            (g, run)
        }
    } else {
        let mut digits = sub_chars(s, i, g);
        let mut span_end = g;
        // Collect separator-connected groups.
        while digits.len() < 19
            invariant
                len == s@.len(),
                g <= span_end <= len,
                digits@.len() <= 19,
                forall|k: int| 0 <= k < digits@.len() ==> is_digit(#[trigger] digits@[k]),
                assemble_groups(s@, g as int, s@.subrange(i as int, g as int))
                    == assemble_groups(s@, span_end as int, digits@),
            ensures
                g <= span_end <= len,
                digits@.len() <= 19,
                forall|k: int| 0 <= k < digits@.len() ==> is_digit(#[trigger] digits@[k]),
                assemble_groups(s@, g as int, s@.subrange(i as int, g as int))
                    == assemble_groups(s@, span_end as int, digits@),
                assemble_groups(s@, span_end as int, digits@) == (span_end as int, digits@),
            decreases len - span_end,
        {
            let ghost start = span_end;
            if span_end < len && (s[span_end] == ' ' || s[span_end] == '-') && span_end + 1 < len
                && '0' <= s[span_end + 1] && s[span_end + 1] <= '9' {
                span_end = span_end + 1;
                digits.push(s[span_end]);
                span_end = span_end + 1;
                while span_end < len && '0' <= s[span_end] && s[span_end] <= '9' && digits.len()
                    < 19
                    invariant
                        len == s@.len(),
                        g < span_end <= len,
                        start < span_end,
                        digits@.len() <= 19,
                        forall|k: int| 0 <= k < digits@.len() ==> is_digit(#[trigger] digits@[k]),
                        assemble_groups(s@, g as int, s@.subrange(i as int, g as int))
                            == take_group_digits(s@, span_end as int, digits@),
                    decreases len - span_end,
                {
                    digits.push(s[span_end]);
                    span_end = span_end + 1;
                }
                proof {
                    // The group ended (or 19 digits are held): back to looking for a separator.
                    assert(take_group_digits(s@, span_end as int, digits@) == assemble_groups(
                        s@,
                        span_end as int,
                        digits@,
                    ));
                }
            } else {
                break;
            }
        }
        let out = if digits.len() >= 13 && digits.len() <= 19 && is_card_number_exec(
            digits.as_slice(),
        ) {
            chars_of("[CARD REDACTED]")
        } else {
            sub_chars(s, i, span_end)
        };
        (span_end, out)
    }
}

/// Sanitize free text by redacting sequences that look like credit card PANs.
///
/// 1. Find digit sequences (allowing space/dash separators) of 13–19 digits
/// 2. Validate IIN prefix (known card brand ranges)
/// 3. Validate Luhn checksum
///
/// Only sequences passing both checks are redacted, so phone numbers,
/// timestamps and IDs are left alone.
pub fn sanitize_text(text: &str) -> (r: String)
    ensures
        r@ == sanitize_text_spec(text@),
{
    let s = chars_of(text);
    let len = s.len();
    let mut out: Vec<char> = Vec::new();
    let mut i: usize = 0;
    while i < len
        invariant
            len == s@.len(),
            i <= len,
            out@ + sanitize_text_from(s@, i as int) == sanitize_text_from(s@, 0),
        decreases len - i,
    {
        let c = s[i];
        if !('0' <= c && c <= '9') {
            let ghost o = out@;
            out.push(c);
            assert(out@ + sanitize_text_from(s@, i + 1) =~= o + sanitize_text_from(s@, i as int));
            i = i + 1;
        } else {
            proof {
                lemma_digit_span(s@, i as int);
            }
            let (e, piece) = digit_span_exec(s.as_slice(), i);
            let ghost o = out@;
            extend_chars(&mut out, piece.as_slice());
            assert(out@ + sanitize_text_from(s@, e as int) =~= o + sanitize_text_from(s@, i as int));
            i = e;
        }
    }
    assert(out@ =~= out@ + sanitize_text_from(s@, len as int));
    string_of(out.as_slice())
}

// ─────────────────────────────────────────────────────────────────────
// Laws
// ─────────────────────────────────────────────────────────────────────

/// A URL without a query string is returned unchanged by `sanitize_url`.
pub proof fn law_url_without_query_unchanged(url: Seq<char>)
    requires
        forall|i: int| 0 <= i < url.len() ==> url[i] != '?',
    ensures
        sanitize_url_spec(url) == url,
{
    crate::text::lemma_find_seq(url, seq!['?']);
    if let Some(k) = find_char(url, '?') {
        assert(url.subrange(k, k + 1)[0] == '?');
    }
}

proof fn lemma_no_digits_from(s: Seq<char>, i: int)
    requires
        0 <= i <= s.len(),
        forall|k: int| 0 <= k < s.len() ==> !is_digit(#[trigger] s[k]),
    ensures
        sanitize_text_from(s, i) == s.skip(i),
    decreases s.len() - i,
{
    if i < s.len() {
        lemma_no_digits_from(s, i + 1);
        assert(seq![s[i]] + s.skip(i + 1) =~= s.skip(i));
    } else {
        assert(s.skip(i) =~= Seq::<char>::empty());
    }
}

/// Text that contains no decimal digit is returned unchanged by `sanitize_text`.
pub proof fn law_text_without_digits_unchanged(s: Seq<char>)
    requires
        forall|k: int| 0 <= k < s.len() ==> !is_digit(#[trigger] s[k]),
    ensures
        sanitize_text_spec(s) == s,
{
    lemma_no_digits_from(s, 0);
    assert(s.skip(0) =~= s);
}
/// The first position of `c` in `s`, in terms of the characters themselves.
proof fn lemma_find_char(s: Seq<char>, c: char)
    ensures
        find_char(s, c) matches Some(i) ==> 0 <= i < s.len() && s[i] == c && forall|j: int| 0 <= j < i ==> s[j] != c,
        find_char(s, c) is None ==> forall|j: int| 0 <= j < s.len() ==> s[j] != c,
{
    crate::text::lemma_find_seq(s, seq![c]);
    if let Some(i) = find_char(s, c) {
        assert(s.subrange(i, i + 1)[0] == s[i]);
        assert forall|j: int| 0 <= j < i implies s[j] != c by {
            if s[j] == c {
                assert(s.subrange(j, j + 1) =~= seq![c]);
                assert(crate::text::occurs_at(s, seq![c], j));
            }
        }
    } else {
        assert forall|j: int| 0 <= j < s.len() implies s[j] != c by {
            if s[j] == c {
                assert(s.subrange(j, j + 1) =~= seq![c]);
                assert(crate::text::occurs_at(s, seq![c], j));
            }
        }
    }
}

/// `find_char` picks the first position holding the character.
proof fn lemma_find_char_at(s: Seq<char>, c: char, i: int)
    requires
        0 <= i < s.len(),
        s[i] == c,
        forall|j: int| 0 <= j < i ==> s[j] != c,
    ensures
        find_char(s, c) == Some(i),
{
    lemma_find_char(s, c);
    match find_char(s, c) {
        Some(k) => {
            if k < i {
                assert(s[k] == c);
            } else if k > i {
                assert(s[i] != c);
            }
        },
        None => {
            assert(s[i] != c);
        },
    }
}

/// A query piece hides its value when its key is sensitive.
pub open spec fn pair_redacted(p: Seq<char>) -> bool {
    match find_char(p, '=') {
        Some(e) => is_sensitive_param(p.take(e)) ==> p.skip(e) == redacted_value(),
        None => true,
    }
}

proof fn lemma_sanitize_pair(x: Seq<char>)
    ensures
        pair_redacted(sanitize_pair(x)),
        (forall|j: int| 0 <= j < x.len() ==> x[j] != '&') ==> forall|j: int|
            0 <= j < sanitize_pair(x).len() ==> sanitize_pair(x)[j] != '&',
{
    reveal_strlit("=[REDACTED]");
    lemma_find_char(x, '=');
    match find_char(x, '=') {
        Some(e) => {
            if is_sensitive_param(x.take(e)) {
                let y = x.take(e) + redacted_value();
                assert(y[e] == '=');
                assert forall|j: int| 0 <= j < e implies y[j] != '=' by {
                    assert(y[j] == x[j]);
                }
                lemma_find_char_at(y, '=', e);
                assert(y.take(e) =~= x.take(e));
                assert(y.skip(e) =~= redacted_value());
            }
        },
        None => {},
    }
}

/// Splitting `a & b` where `a` holds no `&` gives `a`, then the pieces of `b`.
proof fn lemma_split_join(a: Seq<char>, b: Seq<char>)
    requires
        forall|j: int| 0 <= j < a.len() ==> a[j] != '&',
    ensures
        split_char(a + seq!['&'] + b, '&') == seq![a] + split_char(b, '&'),
{
    let x = a + seq!['&'] + b;
    assert(x[a.len() as int] == '&');
    assert forall|j: int| 0 <= j < a.len() implies x[j] != '&' by {
        assert(x[j] == a[j]);
    }
    lemma_find_char_at(x, '&', a.len() as int);
    assert(x.take(a.len() as int) =~= a);
    assert(x.skip(a.len() as int + 1) =~= b);
}

/// No piece of a scrubbed query keeps the value of a sensitive parameter.
pub proof fn law_sensitive_values_hidden(q: Seq<char>)
    ensures
        forall|k: int|
            0 <= k < split_char(sanitize_query(q), '&').len() ==> pair_redacted(
                #[trigger] split_char(sanitize_query(q), '&')[k],
            ),
    decreases q.len(),
{
    lemma_find_char(q, '&');
    match find_char(q, '&') {
        Some(i) => {
            let head = q.take(i);
            let rest = q.skip(i + 1);
            assert forall|j: int| 0 <= j < head.len() implies head[j] != '&' by {
                assert(head[j] == q[j]);
            }
            lemma_sanitize_pair(head);
            law_sensitive_values_hidden(rest);
            lemma_split_join(sanitize_pair(head), sanitize_query(rest));
            let pieces = split_char(sanitize_query(q), '&');
            assert(pieces == seq![sanitize_pair(head)] + split_char(sanitize_query(rest), '&'));
            assert forall|k: int| 0 <= k < pieces.len() implies pair_redacted(#[trigger] pieces[k]) by {
                if k > 0 {
                    assert(pieces[k] == split_char(sanitize_query(rest), '&')[k - 1]);
                }
            }
        },
        None => {
            lemma_sanitize_pair(q);
            let y = sanitize_pair(q);
            lemma_find_char(y, '&');
            assert(split_char(y, '&') == seq![y]);
        },
    }
}


// ─────────────────────────────────────────────────────────────────────
// Scrubbing twice
// ─────────────────────────────────────────────────────────────────────

/// `t`, read from `off` on, agrees with `s` up to `e`, and what follows in
/// `t` cannot extend a digit span of `s` that ends at `e`.
pub open spec fn agrees_to(s: Seq<char>, t: Seq<char>, off: int, e: int) -> bool {
    &&& 0 <= off <= e <= s.len()
    &&& t.len() >= e - off
    &&& forall|k: int| off <= k < e ==> #[trigger] t[k - off] == s[k]
    &&& e == s.len() ==> t.len() == e - off
    &&& e < s.len() && !is_digit(s[e]) ==> {
        &&& t.len() > e - off
        &&& t[e - off] == s[e]
        &&& e - off + 1 < t.len() && is_digit(t[e - off + 1]) ==> e + 1 < s.len() && is_digit(s[e + 1])
    }
}

proof fn lemma_run_agrees(s: Seq<char>, t: Seq<char>, off: int, k: int, e: int)
    requires
        off <= k <= digit_run_end(s, k) <= e,
        agrees_to(s, t, off, e),
    ensures
        digit_run_end(t, k - off) == digit_run_end(s, k) - off,
    decreases s.len() - k,
{
    lemma_digit_run_end(s, k);
    if k < s.len() && is_digit(s[k]) {
        lemma_digit_run_end(s, k + 1);
        lemma_run_agrees(s, t, off, k + 1, e);
    } else if k < e {
        assert(t[k - off] == s[k]);
    }
}

proof fn lemma_take_grows(s: Seq<char>, k: int, digits: Seq<char>)
    requires
        0 <= k < s.len(),
        is_digit(s[k]),
        digits.len() < 19,
    ensures
        take_group_digits(s, k, digits).0 > k,
{
    lemma_take_group_digits(s, k + 1, digits.push(s[k]));
}

proof fn lemma_take_agrees(s: Seq<char>, t: Seq<char>, off: int, k: int, digits: Seq<char>)
    requires
        off <= k <= take_group_digits(s, k, digits).0,
        agrees_to(s, t, off, take_group_digits(s, k, digits).0),
    ensures
        take_group_digits(t, k - off, digits) == (take_group_digits(s, k, digits).0 - off, take_group_digits(s, k, digits).1),
    decreases s.len() - k, 1int,
{
    let e = take_group_digits(s, k, digits).0;
    if 0 <= k < s.len() && is_digit(s[k]) && digits.len() < 19 {
        lemma_take_group_digits(s, k + 1, digits.push(s[k]));
        assert(k < e) by {
            lemma_take_grows(s, k, digits);
        }
        assert(t[k - off] == s[k]);
        lemma_take_agrees(s, t, off, k + 1, digits.push(s[k]));
    } else {
        lemma_assemble_groups(s, k, digits);
        if k < e {
            assert(t[k - off] == s[k]);
        } else if digits.len() < 19 {
            assert(k == e);
        }
        lemma_assemble_agrees(s, t, off, k, digits, k == e && digits.len() < 19);
    }
}

proof fn lemma_assemble_agrees(s: Seq<char>, t: Seq<char>, off: int, end: int, digits: Seq<char>, stopped: bool)
    requires
        off <= end <= assemble_groups(s, end, digits).0,
        agrees_to(s, t, off, assemble_groups(s, end, digits).0),
        stopped ==> end == s.len() || !is_digit(s[end]),
        end <= s.len(),
        end < s.len() && is_digit(s[end]) ==> digits.len() >= 19 || end < assemble_groups(s, end, digits).0,
    ensures
        assemble_groups(t, end - off, digits) == (assemble_groups(s, end, digits).0 - off, assemble_groups(s, end, digits).1),
    decreases s.len() - end, 0int,
{
    let e = assemble_groups(s, end, digits).0;
    if digits.len() < 19 && 0 <= end && end + 1 < s.len() && is_group_sep(s[end]) && is_digit(s[end + 1]) {
        lemma_take_grows(s, end + 1, digits);
        lemma_take_group_digits(s, end + 1, digits);
        assert(t[end - off] == s[end]);
        assert(t[end + 1 - off] == s[end + 1]);
        lemma_take_agrees(s, t, off, end + 1, digits);
    } else {
        assert(e == end);
        if digits.len() < 19 && end < s.len() {
            assert(!is_digit(s[end]));
            assert(t[end - off] == s[end]);
        }
    }
}

/// Where a digit span of `s` ends and what replaces it are read off `t` just
/// as well, when `t` agrees with `s` up to that end.
proof fn lemma_span_agrees(s: Seq<char>, t: Seq<char>, off: int, i: int)
    requires
        off <= i < s.len(),
        is_digit(s[i]),
        agrees_to(s, t, off, digit_span(s, i).0),
    ensures
        digit_span(t, i - off) == (digit_span(s, i).0 - off, digit_span(s, i).1),
{
    lemma_digit_span(s, i);
    lemma_digit_run_end(s, i);
    let g = digit_run_end(s, i);
    let e = digit_span(s, i).0;
    lemma_assemble_groups(s, g, s.subrange(i, g));
    assert(g <= e);
    lemma_run_agrees(s, t, off, i, e);
    assert(t.subrange(i - off, g - off) =~= s.subrange(i, g)) by {
        assert forall|k: int| 0 <= k < g - i implies #[trigger] t.subrange(i - off, g - off)[k] == s.subrange(i, g)[k] by {
            assert(t[i + k - off] == s[i + k]);
        }
    }
    if g - i <= 19 && g - i < 13 {
        lemma_assemble_agrees(s, t, off, g, s.subrange(i, g), true);
        assert(t.subrange(i - off, e - off) =~= s.subrange(i, e)) by {
            assert forall|k: int| 0 <= k < e - i implies #[trigger] t.subrange(i - off, e - off)[k] == s.subrange(i, e)[k] by {
                assert(t[i + k - off] == s[i + k]);
            }
        }
    }
}

/// Scanning from `j` sees only what comes from `j` on.
proof fn lemma_from_skip(s: Seq<char>, off: int, j: int)
    requires
        0 <= off <= j,
        off <= s.len(),
    ensures
        sanitize_text_from(s.skip(off), j - off) == sanitize_text_from(s, j),
    decreases s.len() - j,
{
    let t = s.skip(off);
    if j < s.len() {
        assert(t[j - off] == s[j]);
        if is_digit(s[j]) {
            lemma_digit_span(s, j);
            let e = digit_span(s, j).0;
            assert(agrees_to(s, t, off, e));
            lemma_span_agrees(s, t, off, j);
            lemma_from_skip(s, off, e);
        } else {
            lemma_from_skip(s, off, j + 1);
        }
    }
}

/// Text with no digits passes through a scan unchanged, whatever follows it.
proof fn lemma_plain_prefix(x: Seq<char>, y: Seq<char>, k: int)
    requires
        0 <= k <= x.len(),
        forall|m: int| 0 <= m < x.len() ==> !is_digit(#[trigger] x[m]),
    ensures
        sanitize_text_from(x + y, k) == x.skip(k) + sanitize_text_from(y, 0),
    decreases x.len() - k,
{
    if k < x.len() {
        assert((x + y)[k] == x[k]);
        lemma_plain_prefix(x, y, k + 1);
        assert(seq![x[k]] + (x.skip(k + 1) + sanitize_text_from(y, 0)) =~= x.skip(k) + sanitize_text_from(y, 0));
    } else {
        lemma_from_skip(x + y, x.len() as int, x.len() as int);
        assert((x + y).skip(x.len() as int) =~= y);
        assert(x.skip(k) =~= Seq::<char>::empty());
    }
}

/// The scrubbed text from `j` on starts with a digit only where `s` does.
proof fn lemma_first_digit(s: Seq<char>, j: int)
    requires
        0 <= j,
    ensures
        sanitize_text_from(s, j).len() > 0 && is_digit(sanitize_text_from(s, j)[0]) ==> j < s.len() && is_digit(s[j]),
{
    reveal_strlit("[CARD REDACTED]");
    if 0 <= j < s.len() && is_digit(s[j]) {
        lemma_digit_span(s, j);
        let (e, o) = digit_span(s, j);
        if o != card_redacted() {
            assert(o[0] == s[j]);
        }
        assert((o + sanitize_text_from(s, e))[0] == o[0]);
    }
}

/// Scrubbing what has been scrubbed changes nothing more.
proof fn lemma_scrub_twice(s: Seq<char>, i: int)
    requires
        0 <= i <= s.len(),
    ensures
        sanitize_text_from(sanitize_text_from(s, i), 0) == sanitize_text_from(s, i),
    decreases s.len() - i,
{
    reveal_strlit("[CARD REDACTED]");
    if i < s.len() {
        if !is_digit(s[i]) {
            lemma_scrub_twice(s, i + 1);
            lemma_plain_prefix(seq![s[i]], sanitize_text_from(s, i + 1), 0);
        } else {
            lemma_digit_span(s, i);
            let (e, o) = digit_span(s, i);
            let r = sanitize_text_from(s, e);
            lemma_scrub_twice(s, e);
            if o == card_redacted() {
                lemma_plain_prefix(o, r, 0);
                assert(o.skip(0) =~= o);
            } else {
                let t = o + r;
                assert(o == s.subrange(i, e));
                lemma_first_digit(s, e + 1);
                assert(agrees_to(s, t, i, e)) by {
                    assert forall|k: int| i <= k < e implies #[trigger] t[k - i] == s[k] by {}
                    if e < s.len() && !is_digit(s[e]) {
                        assert(r == seq![s[e]] + sanitize_text_from(s, e + 1));
                        assert(t[e - i] == s[e]);
                        if e - i + 1 < t.len() {
                            assert(t[e - i + 1] == sanitize_text_from(s, e + 1)[0]);
                        }
                    }
                }
                lemma_span_agrees(s, t, i, i);
                assert(digit_span(t, 0) == (e - i, o));
                lemma_from_skip(t, e - i, e - i);
                assert(t.skip(e - i) =~= r);
            }
        }
    }
}

/// Scrubbing is idempotent: `sanitize_text` leaves its own output unchanged.
pub proof fn law_sanitize_text_idempotent(s: Seq<char>)
    ensures
        sanitize_text_spec(sanitize_text_spec(s)) == sanitize_text_spec(s),
{
    lemma_scrub_twice(s, 0);
}


// ─────────────────────────────────────────────────────────────────────
// Card brands
// ─────────────────────────────────────────────────────────────────────

/// The documented card brands are recognised by their leading digits: Visa
/// (4), Discover, Maestro and UnionPay (6), Amex (34, 37), JCB (35), Diners
/// (30, 36, 38), Mastercard and Maestro (50-58, 2221-2720); 39 and 59, a
/// 2-series number outside 2221-2720, and a number starting with 0, 1, 7, 8
/// or 9 belong to none of them.
pub proof fn law_brand_prefixes(d: Seq<u8>)
    requires
        all_digit_bytes(d),
        d.len() >= 1,
    ensures
        d[0] == '4' as u8 ==> valid_iin_prefix_spec(d),
        d[0] == '6' as u8 ==> valid_iin_prefix_spec(d),
        d.len() >= 2 && d[0] == '3' as u8 && (d[1] == '4' as u8 || d[1] == '7' as u8 || d[1] == '5' as u8
            || d[1] == '0' as u8 || d[1] == '6' as u8 || d[1] == '8' as u8) ==> valid_iin_prefix_spec(d),
        d.len() >= 2 && d[0] == '5' as u8 && d[1] <= '8' as u8 ==> valid_iin_prefix_spec(d),
        (d[0] == '3' as u8 || d[0] == '5' as u8) && (d.len() == 1 || d[1] == '9' as u8) ==> !valid_iin_prefix_spec(d),
        d[0] == '2' as u8 && (d.len() < 4 || !(2221 <= (d[0] - 48) * 1000 + (d[1] - 48) * 100 + (d[2] - 48) * 10
            + (d[3] - 48) <= 2720)) ==> !valid_iin_prefix_spec(d),
        d.len() >= 4 && d[0] == '2' as u8 && 2221 <= (d[0] - 48) * 1000 + (d[1] - 48) * 100 + (d[2] - 48) * 10
            + (d[3] - 48) <= 2720 ==> valid_iin_prefix_spec(d),
        d[0] == '0' as u8 || d[0] == '1' as u8 || d[0] == '7' as u8 || d[0] == '8' as u8 || d[0] == '9' as u8
            ==> !valid_iin_prefix_spec(d),
{
    assert(48 <= d[0] <= 57);
    if d.len() >= 2 {
        assert(48 <= d[1] <= 57);
    }
}

proof fn lemma_run_of_digits(y: Seq<char>, n: int, k: int)
    requires
        0 <= k <= n <= y.len(),
        forall|m: int| 0 <= m < n ==> is_digit(#[trigger] y[m]),
        n == y.len() || !is_digit(y[n]),
    ensures
        digit_run_end(y, k) == n,
    decreases n - k,
{
    if k < n {
        lemma_run_of_digits(y, n, k + 1);
    }
}

/// A card number standing on its own in text (13 to 19 digits, a documented
/// brand prefix and a valid Luhn checksum, with no digit right after it) is
/// replaced by `[CARD REDACTED]`, and the text around it is scrubbed as it
/// would be without it.
pub proof fn law_card_number_redacted(a: Seq<char>, d: Seq<char>, b: Seq<char>)
    requires
        forall|m: int| 0 <= m < a.len() ==> !is_digit(#[trigger] a[m]),
        13 <= d.len() <= 19,
        forall|m: int| 0 <= m < d.len() ==> is_digit(#[trigger] d[m]),
        valid_iin_prefix_spec(char_bytes(d)),
        luhn_valid_spec(char_bytes(d)),
        b.len() == 0 || !is_digit(b[0]),
    ensures
        sanitize_text_spec(a + d + b) == a + card_redacted() + sanitize_text_spec(b),
{
    let y = d + b;
    assert(a + d + b =~= a + y);
    lemma_plain_prefix(a, y, 0);
    assert(a.skip(0) =~= a);
    let n = d.len() as int;
    assert forall|m: int| 0 <= m < n implies is_digit(#[trigger] y[m]) by {
        assert(y[m] == d[m]);
    }
    if n < y.len() {
        assert(y[n] == b[0]);
    }
    lemma_run_of_digits(y, n, 0);
    assert(y.subrange(0, n) =~= d);
    assert(digit_span(y, 0) == (n, card_redacted()));
    lemma_digit_span(y, 0);
    lemma_from_skip(y, n, n);
    assert(y.skip(n) =~= b);
}


// ─────────────────────────────────────────────────────────────────────
// Secret parameters
// ─────────────────────────────────────────────────────────────────────

/// The query parameters documented as carrying secrets: tokens, keys,
/// secrets, passwords, bearer and auth values, session ids, OAuth `code` and
/// `state`, and card data.
pub open spec fn documented_secret_params() -> Seq<Seq<char>> {
    seq![
        "token"@,
        "access_token"@,
        "refresh_token"@,
        "oauth_token"@,
        "api_key"@,
        "apikey"@,
        "apiKey"@,
        "key"@,
        "secret"@,
        "client_secret"@,
        "private_key"@,
        "password"@,
        "pwd"@,
        "passwd"@,
        "bearer"@,
        "auth"@,
        "authorization"@,
        "session_id"@,
        "sessionId"@,
        "sid"@,
        "code"@,
        "state"@,
        "card_number"@,
        "cc_number"@,
        "cvv"@,
        "cvc"@,
        "pan"@,
        "card_exp"@,
    ]
}

proof fn lemma_ascii_lower_eq(c: char)
    ensures
        ascii_lower(c) == '=' <==> c == '=',
{
}

/// Every documented secret parameter, in any ASCII case, is hidden: its name
/// is sensitive, and a query piece `name=value` becomes `name=[REDACTED]`.
pub proof fn law_documented_params_hidden(key: Seq<char>, value: Seq<char>, i: int)
    requires
        0 <= i < documented_secret_params().len(),
        eq_ignore_ascii_case(key, documented_secret_params()[i]),
    ensures
        is_sensitive_param(key),
        sanitize_pair(key + seq!['='] + value) == key + redacted_value(),
{
    reveal_strlit("token");
    reveal_strlit("access_token");
    reveal_strlit("refresh_token");
    reveal_strlit("oauth_token");
    reveal_strlit("api_key");
    reveal_strlit("apikey");
    reveal_strlit("apiKey");
    reveal_strlit("key");
    reveal_strlit("secret");
    reveal_strlit("client_secret");
    reveal_strlit("private_key");
    reveal_strlit("password");
    reveal_strlit("pwd");
    reveal_strlit("passwd");
    reveal_strlit("bearer");
    reveal_strlit("auth");
    reveal_strlit("authorization");
    reveal_strlit("session_id");
    reveal_strlit("sessionId");
    reveal_strlit("sid");
    reveal_strlit("code");
    reveal_strlit("state");
    reveal_strlit("card_number");
    reveal_strlit("cc_number");
    reveal_strlit("cvv");
    reveal_strlit("cvc");
    reveal_strlit("pan");
    reveal_strlit("card_exp");
    reveal_strlit("=[REDACTED]");
    if i == 0 {
        assert(sensitive_param_names()[0] == "token");
    } else if i == 1 {
        assert(sensitive_param_names()[1] == "access_token");
    } else if i == 2 {
        assert(sensitive_param_names()[2] == "refresh_token");
    } else if i == 3 {
        assert(sensitive_param_names()[3] == "oauth_token");
    } else if i == 4 {
        assert(sensitive_param_names()[4] == "api_key");
    } else if i == 5 {
        assert(sensitive_param_names()[5] == "apikey");
    } else if i == 6 {
        assert(sensitive_param_names()[6] == "apiKey");
    } else if i == 7 {
        assert(sensitive_param_names()[7] == "key");
    } else if i == 8 {
        assert(sensitive_param_names()[8] == "secret");
    } else if i == 9 {
        assert(sensitive_param_names()[9] == "client_secret");
    } else if i == 10 {
        assert(sensitive_param_names()[10] == "private_key");
    } else if i == 11 {
        assert(sensitive_param_names()[11] == "password");
    } else if i == 12 {
        assert(sensitive_param_names()[12] == "pwd");
    } else if i == 13 {
        assert(sensitive_param_names()[13] == "passwd");
    } else if i == 14 {
        assert(sensitive_param_names()[14] == "bearer");
    } else if i == 15 {
        assert(sensitive_param_names()[15] == "auth");
    } else if i == 16 {
        assert(sensitive_param_names()[16] == "authorization");
    } else if i == 17 {
        assert(sensitive_param_names()[17] == "session_id");
    } else if i == 18 {
        assert(sensitive_param_names()[18] == "sessionId");
    } else if i == 19 {
        assert(sensitive_param_names()[19] == "sid");
    } else if i == 20 {
        assert(sensitive_param_names()[20] == "code");
    } else if i == 21 {
        assert(sensitive_param_names()[21] == "state");
    } else if i == 22 {
        assert(sensitive_param_names()[22] == "card_number");
    } else if i == 23 {
        assert(sensitive_param_names()[23] == "cc_number");
    } else if i == 24 {
        assert(sensitive_param_names()[24] == "cvv");
    } else if i == 25 {
        assert(sensitive_param_names()[25] == "cvc");
    } else if i == 26 {
        assert(sensitive_param_names()[26] == "pan");
    } else if i == 27 {
        assert(sensitive_param_names()[27] == "card_exp");
    }
    assert(sensitive_param_names()[i]@ == documented_secret_params()[i]);
    let n = documented_secret_params()[i];
    assert(eq_ignore_ascii_case(key, sensitive_param_names()[i]@));
    let p = key + seq!['='] + value;
    assert(key.len() == n.len()) by {
        assert(ascii_lower_seq(key).len() == ascii_lower_seq(n).len());
    }
    assert forall|j: int| 0 <= j < key.len() implies p[j] != '=' by {
        assert(p[j] == key[j]);
        assert(ascii_lower_seq(key)[j] == ascii_lower_seq(n)[j]);
        lemma_ascii_lower_eq(key[j]);
        lemma_ascii_lower_eq(n[j]);
    }
    assert(p[key.len() as int] == '=');
    lemma_find_char_at(p, '=', key.len() as int);
    assert(p.take(key.len() as int) =~= key);
}


// ─────────────────────────────────────────────────────────────────────
// The Luhn checksum
// ─────────────────────────────────────────────────────────────────────

proof fn lemma_luhn_sum_prefix_zero(d: Seq<u8>, k: int)
    requires
        0 <= k <= d.len(),
    ensures
        luhn_sum(seq!['0' as u8] + d, k) == luhn_sum(d, k),
    decreases k,
{
    if k > 0 {
        lemma_luhn_sum_prefix_zero(d, k - 1);
        let z = seq!['0' as u8] + d;
        assert(z[z.len() - 1 - (k - 1)] == d[d.len() - 1 - (k - 1)]);
    }
}

/// Leading zeros do not change the Luhn checksum: a number of at least 13
/// digits passes exactly when it passes with a `0` in front (digits are
/// weighted from the right).
pub proof fn law_luhn_leading_zero(d: Seq<u8>)
    requires
        d.len() >= 13,
    ensures
        luhn_valid_spec(seq!['0' as u8] + d) == luhn_valid_spec(d),
{
    let z = seq!['0' as u8] + d;
    lemma_luhn_sum_prefix_zero(d, d.len() as int);
    assert(z[z.len() - 1 - d.len()] == '0' as u8);
    assert(luhn_sum(z, z.len() as int) == luhn_sum(z, d.len() as int) + luhn_term(z, d.len() as int));
}

proof fn lemma_luhn_sum_update(d: Seq<u8>, p: int, c: u8, k: int)
    requires
        0 <= p < d.len(),
        0 <= k <= d.len(),
    ensures
        luhn_sum(d.update(p, c), k) == luhn_sum(d, k) + if k > d.len() - 1 - p {
            luhn_term(d.update(p, c), d.len() - 1 - p) - luhn_term(d, d.len() - 1 - p)
        } else {
            0
        },
    decreases k,
{
    if k > 0 {
        lemma_luhn_sum_update(d, p, c, k - 1);
        let j = d.len() - 1 - (k - 1);
        if j != p {
            assert(d.update(p, c)[j] == d[j]);
        }
    }
}

/// Luhn catches every single mistyped digit: changing one digit of a number
/// that passes the checksum to another digit makes it fail.
pub proof fn law_luhn_catches_one_wrong_digit(d: Seq<u8>, p: int, c: u8)
    requires
        all_digit_bytes(d),
        0 <= p < d.len(),
        48 <= c <= 57,
        c != d[p],
        luhn_valid_spec(d),
    ensures
        !luhn_valid_spec(d.update(p, c)),
{
    let e = d.update(p, c);
    let i = d.len() - 1 - p;
    lemma_luhn_sum_update(d, p, c, d.len() as int);
    assert(48 <= d[p] <= 57);
    let a = d[p] - 48;
    let b = c - 48;
    assert(e[e.len() - 1 - i] == c);
    assert(d[d.len() - 1 - i] == d[p]);
    let delta = luhn_term(e, i) - luhn_term(d, i);
    assert(delta != 0 && -9 <= delta <= 9);
    let s0 = luhn_sum(d, d.len() as int);
    assert(s0 % 10 == 0);
    assert((s0 + delta) % 10 != 0) by (nonlinear_arith)
        requires
            s0 % 10 == 0,
            delta != 0,
            -9 <= delta <= 9,
    ;
}


/// Luhn catches swapped neighbours: exchanging two adjacent different digits
/// of a number that passes the checksum makes it fail, unless the pair is
/// `0` and `9` (the one swap the doubling cannot tell apart).
pub proof fn law_luhn_catches_adjacent_swap(d: Seq<u8>, p: int)
    requires
        all_digit_bytes(d),
        0 <= p,
        p + 1 < d.len(),
        d[p] != d[p + 1],
        !(d[p] == '0' as u8 && d[p + 1] == '9' as u8),
        !(d[p] == '9' as u8 && d[p + 1] == '0' as u8),
        luhn_valid_spec(d),
    ensures
        !luhn_valid_spec(d.update(p, d[p + 1]).update(p + 1, d[p])),
{
    let a = d[p];
    let b = d[p + 1];
    assert(48 <= a <= 57 && 48 <= b <= 57);
    let d1 = d.update(p, b);
    let e = d1.update(p + 1, a);
    let n = d.len() as int;
    lemma_luhn_sum_update(d, p, b, n);
    lemma_luhn_sum_update(d1, p + 1, a, n);
    let ip = n - 1 - p;
    let iq = n - 1 - (p + 1);
    assert(d1[p + 1] == b);
    assert(e[p] == b);
    assert(e[p + 1] == a);
    let delta = (luhn_term(d1, ip) - luhn_term(d, ip)) + (luhn_term(e, iq) - luhn_term(d1, iq));
    assert(luhn_sum(e, n) == luhn_sum(d, n) + delta);
    assert(delta != 0 && -9 <= delta <= 9) by {
        assert(ip == iq + 1);
        assert(d1[n - 1 - ip] == b && d[n - 1 - ip] == a);
        assert(e[n - 1 - iq] == a && d1[n - 1 - iq] == b);
        assert(ip % 2 == 1 <==> iq % 2 == 0);
    }
    let s0 = luhn_sum(d, n);
    assert((s0 + delta) % 10 != 0) by (nonlinear_arith)
        requires
            s0 % 10 == 0,
            delta != 0,
            -9 <= delta <= 9,
    ;
}

} // verus!
