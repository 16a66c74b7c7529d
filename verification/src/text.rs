//! Character-level helpers shared by the sanitizers, the page index and the
//! MCP formatters. Strings are handled through their `Seq<char>` view.

use vstd::prelude::*;

verus! {

/// The characters of `s`, in order.
pub fn chars_of(s: &str) -> (r: Vec<char>)
    ensures
        r@ == s@,
{
    let mut r: Vec<char> = Vec::new();
    for c in it: s.chars()
        invariant
            it.seq() == s@,
            r@ == it.seq().take(it.index() as int),
    {
        r.push(c);
    }
    r
}

/// Appends one character to a `String` (`String::push`).
#[verifier::external_body]
pub fn push_char(s: &mut String, c: char)
    ensures
        final(s)@ == old(s)@.push(c),
{
    s.push(c);
}

/// A `String` holding exactly the characters of `v`.
pub fn string_of(v: &[char]) -> (r: String)
    ensures
        r@ == v@,
{
    let mut r = String::new();
    let mut i: usize = 0;
    while i < v.len()
        invariant
            i <= v@.len(),
            r@ == v@.take(i as int),
        decreases v@.len() - i,
    {
        push_char(&mut r, v[i]);
        i = i + 1;
        assert(r@ =~= v@.take(i as int));
    }
    assert(v@.take(v@.len() as int) =~= v@);
    r
}

/// Appends all characters of `src` to `dst`.
pub fn extend_chars(dst: &mut Vec<char>, src: &[char])
    ensures
        final(dst)@ == old(dst)@ + src@,
{
    let mut i: usize = 0;
    while i < src.len()
        invariant
            i <= src@.len(),
            dst@ == old(dst)@ + src@.take(i as int),
        decreases src@.len() - i,
    {
        dst.push(src[i]);
        i = i + 1;
        assert(dst@ =~= old(dst)@ + src@.take(i as int));
    }
    assert(src@.take(src@.len() as int) =~= src@);
}

/// Appends all characters of `src` to `dst`.
pub fn extend_str(dst: &mut Vec<char>, src: &str)
    ensures
        final(dst)@ == old(dst)@ + src@,
{
    let v = chars_of(src);
    extend_chars(dst, v.as_slice());
}

/// An ASCII decimal digit.
pub open spec fn is_digit(c: char) -> bool {
    '0' <= c && c <= '9'
}

/// Every character is an ASCII decimal digit.
pub open spec fn all_digits(d: Seq<char>) -> bool {
    forall|i: int| 0 <= i < d.len() ==> is_digit(#[trigger] d[i])
}

/// `c.is_ascii_uppercase()`.
pub open spec fn is_ascii_upper(c: char) -> bool {
    'A' <= c && c <= 'Z'
}

/// `c.to_ascii_lowercase()`: only `A`..`Z` change.
pub open spec fn ascii_lower(c: char) -> char {
    if is_ascii_upper(c) {
        ((c as u32) + 32) as char
    } else {
        c
    }
}

pub fn to_ascii_lower(c: char) -> (r: char)
    ensures
        r == ascii_lower(c),
{
    if 'A' <= c && c <= 'Z' {
        let u: u32 = c as u32;
        assert(0x41 <= u <= 0x5A);
        ((u + 32) as u8) as char
    } else {
        c
    }
}

/// ASCII lowercase of every character.
pub open spec fn ascii_lower_seq(s: Seq<char>) -> Seq<char> {
    Seq::new(s.len(), |i: int| ascii_lower(s[i]))
}

/// `eq_ignore_ascii_case`.
pub open spec fn eq_ignore_ascii_case(a: Seq<char>, b: Seq<char>) -> bool {
    ascii_lower_seq(a) == ascii_lower_seq(b)
}

pub fn chars_eq_ignore_ascii_case(a: &[char], b: &[char]) -> (r: bool)
    ensures
        r == eq_ignore_ascii_case(a@, b@),
{
    if a.len() != b.len() {
        assert(ascii_lower_seq(a@).len() != ascii_lower_seq(b@).len());
        return false;
    }
    let mut i: usize = 0;
    while i < a.len()
        invariant
            a@.len() == b@.len(),
            i <= a@.len(),
            forall|j: int| 0 <= j < i ==> ascii_lower(#[trigger] a@[j]) == ascii_lower(b@[j]),
        decreases a@.len() - i,
    {
        if to_ascii_lower(a[i]) != to_ascii_lower(b[i]) {
            assert(ascii_lower_seq(a@)[i as int] != ascii_lower_seq(b@)[i as int]);
            return false;
        }
        i = i + 1;
    }
    assert(ascii_lower_seq(a@) =~= ascii_lower_seq(b@));
    true
}

/// `t` occurs in `s` at character position `i`.
pub open spec fn occurs_at(s: Seq<char>, t: Seq<char>, i: int) -> bool {
    0 <= i && i + t.len() <= s.len() && s.subrange(i, i + t.len()) == t
}

/// `s.contains(t)` for a string needle.
pub open spec fn contains_seq(s: Seq<char>, t: Seq<char>) -> bool {
    exists|i: int| occurs_at(s, t, i)
}

/// The first position, at or after `i`, at which `t` occurs in `s`.
pub open spec fn find_from(s: Seq<char>, t: Seq<char>, i: int) -> Option<int>
    decreases s.len() + 1 - i,
{
    if i < 0 || i > s.len() {
        None
    } else if occurs_at(s, t, i) {
        Some(i)
    } else {
        find_from(s, t, i + 1)
    }
}

/// The first position at which `t` occurs in `s` (`str::find`), counted in characters.
pub open spec fn find_seq(s: Seq<char>, t: Seq<char>) -> Option<int> {
    find_from(s, t, 0)
}

/// What `find_from` returns: the first occurrence at or after `i`, if any.
pub proof fn lemma_find_from(s: Seq<char>, t: Seq<char>, i: int)
    requires
        0 <= i,
    ensures
        find_from(s, t, i) matches Some(k) ==> i <= k && occurs_at(s, t, k) && forall|j: int|
            i <= j < k ==> !occurs_at(s, t, j),
        find_from(s, t, i) is None ==> forall|j: int| i <= j ==> !occurs_at(s, t, j),
    decreases s.len() + 1 - i,
{
    if i > s.len() {
    } else if occurs_at(s, t, i) {
    } else {
        lemma_find_from(s, t, i + 1);
    }
}

/// `find_seq` is the first occurrence.
pub proof fn lemma_find_seq(s: Seq<char>, t: Seq<char>)
    ensures
        find_seq(s, t) matches Some(k) ==> occurs_at(s, t, k) && forall|j: int|
            0 <= j < k ==> !occurs_at(s, t, j),
        find_seq(s, t) is None <==> !contains_seq(s, t),
{
    lemma_find_from(s, t, 0);
}

pub fn occurs_at_exec(s: &[char], t: &[char], i: usize) -> (r: bool)
    ensures
        r == occurs_at(s@, t@, i as int),
{
    if i > s.len() || t.len() > s.len() - i {
        return false;
    }
    let mut k: usize = 0;
    while k < t.len()
        invariant
            i + t@.len() <= s.len(),
            k <= t@.len(),
            forall|j: int| 0 <= j < k ==> s@[i + j] == t@[j],
        decreases t@.len() - k,
    {
        if s[i + k] != t[k] {
            assert(s@.subrange(i as int, i + t@.len())[k as int] != t@[k as int]);
            return false;
        }
        k = k + 1;
    }
    assert(s@.subrange(i as int, i + t@.len()) =~= t@);
    true
}

/// `str::find` with a string needle, as a character position.
pub fn find_chars(s: &[char], t: &[char]) -> (r: Option<usize>)
    ensures
        r is None <==> find_seq(s@, t@) is None,
        r matches Some(i) ==> find_seq(s@, t@) == Some(i as int) && occurs_at(s@, t@, i as int),
{
    proof { lemma_find_seq(s@, t@); }
    let mut i: usize = 0;
    while i <= s.len()
        invariant
            i <= s@.len() + 1,
            find_seq(s@, t@) == find_from(s@, t@, i as int),
        decreases s@.len() + 1 - i,
    {
        if occurs_at_exec(s, t, i) {
            return Some(i);
        }
        if i == s.len() {
            assert(find_from(s@, t@, i + 1) is None);
            return None;
        }
        i = i + 1;
    }
    None
}

/// Whether `t` occurs in `s`.
pub fn contains_chars(s: &[char], t: &[char]) -> (r: bool)
    ensures
        r == contains_seq(s@, t@),
{
    proof { lemma_find_seq(s@, t@); }
    match find_chars(s, t) {
        Some(_) => true,
        None => false,
    }
}

/// First position of character `c` in `s`.
pub open spec fn find_char(s: Seq<char>, c: char) -> Option<int> {
    find_seq(s, seq![c])
}

pub fn find_char_exec(s: &[char], c: char) -> (r: Option<usize>)
    ensures
        r is None <==> find_char(s@, c) is None,
        r matches Some(i) ==> find_char(s@, c) == Some(i as int),
        r matches Some(i) ==> i < s@.len() && s@[i as int] == c,
        r is None ==> forall|j: int| 0 <= j < s@.len() ==> s@[j] != c,
{
    let t = vec![c];
    let r = find_chars(s, t.as_slice());
    proof {
        lemma_find_seq(s@, t@);
        assert(t@ =~= seq![c]);
        if let Some(i) = r {
            assert(s@.subrange(i as int, i + 1)[0] == c);
        } else {
            assert forall|j: int| 0 <= j < s@.len() implies s@[j] != c by {
                if s@[j] == c {
                    assert(s@.subrange(j, j + 1) =~= seq![c]);
                    assert(occurs_at(s@, t@, j));
                }
            }
        }
    }
    r
}


/// `char::is_whitespace`: the Unicode `White_Space` property.
pub open spec fn is_whitespace(c: char) -> bool {
    ('\u{9}' <= c && c <= '\u{d}') || c == ' ' || c == '\u{85}' || c == '\u{a0}' || c == '\u{1680}'
        || ('\u{2000}' <= c && c <= '\u{200a}') || c == '\u{2028}' || c == '\u{2029}' || c
        == '\u{202f}' || c == '\u{205f}' || c == '\u{3000}'
}

pub fn is_whitespace_exec(c: char) -> (r: bool)
    ensures
        r == is_whitespace(c),
{
    ('\u{9}' <= c && c <= '\u{d}') || c == ' ' || c == '\u{85}' || c == '\u{a0}' || c == '\u{1680}'
        || ('\u{2000}' <= c && c <= '\u{200a}') || c == '\u{2028}' || c == '\u{2029}' || c
        == '\u{202f}' || c == '\u{205f}' || c == '\u{3000}'
}

/// Position of the first non-whitespace character at or after `i` (or the end).
pub open spec fn skip_ws(s: Seq<char>, i: int) -> int
    decreases s.len() - i,
{
    if 0 <= i < s.len() && is_whitespace(s[i]) {
        skip_ws(s, i + 1)
    } else {
        i
    }
}

/// Position just after the last non-whitespace character before `j` (or `lo`).
pub open spec fn skip_ws_back(s: Seq<char>, lo: int, j: int) -> int
    decreases j - lo,
{
    if lo < j && j <= s.len() && is_whitespace(s[j - 1]) {
        skip_ws_back(s, lo, j - 1)
    } else {
        j
    }
}

/// `str::trim`: leading and trailing whitespace removed.
pub open spec fn trim(s: Seq<char>) -> Seq<char> {
    let a = skip_ws(s, 0);
    s.subrange(a, skip_ws_back(s, a, s.len() as int))
}

proof fn lemma_skip_ws(s: Seq<char>, i: int)
    requires
        0 <= i <= s.len(),
    ensures
        i <= skip_ws(s, i) <= s.len(),
    decreases s.len() - i,
{
    if i < s.len() && is_whitespace(s[i]) {
        lemma_skip_ws(s, i + 1);
    }
}

proof fn lemma_skip_ws_back(s: Seq<char>, lo: int, j: int)
    requires
        0 <= lo <= j <= s.len(),
    ensures
        lo <= skip_ws_back(s, lo, j) <= j,
    decreases j - lo,
{
    if lo < j && is_whitespace(s[j - 1]) {
        lemma_skip_ws_back(s, lo, j - 1);
    }
}

/// `trim` keeps a stretch of the text: every character it keeps is one of
/// the text's, and it is no longer in UTF-8 than the text.
pub proof fn lemma_trim_within(s: Seq<char>)
    ensures
        utf8_len(trim(s)) <= utf8_len(s),
        forall|k: int| 0 <= k < trim(s).len() ==> s.contains(#[trigger] trim(s)[k]),
{
    let a = skip_ws(s, 0);
    lemma_skip_ws(s, 0);
    let b = skip_ws_back(s, a, s.len() as int);
    lemma_skip_ws_back(s, a, s.len() as int);
    let t = s.subrange(a, b);
    assert(s =~= s.take(a) + t + s.skip(b));
    lemma_utf8_len_concat(s.take(a) + t, s.skip(b));
    lemma_utf8_len_concat(s.take(a), t);
    assert forall|k: int| 0 <= k < t.len() implies s.contains(#[trigger] t[k]) by {
        assert(s[a + k] == t[k]);
    }
}

/// `str::trim` on a character vector.
pub fn trim_chars(s: &[char]) -> (r: Vec<char>)
    ensures
        r@ == trim(s@),
{
    let mut a: usize = 0;
    while a < s.len() && is_whitespace_exec(s[a])
        invariant
            a <= s@.len(),
            skip_ws(s@, 0) == skip_ws(s@, a as int),
        decreases s@.len() - a,
    {
        a = a + 1;
    }
    let mut b: usize = s.len();
    while a < b && is_whitespace_exec(s[b - 1])
        invariant
            a <= b <= s@.len(),
            a == skip_ws(s@, 0),
            skip_ws_back(s@, a as int, s@.len() as int) == skip_ws_back(s@, a as int, b as int),
        decreases b - a,
    {
        b = b - 1;
    }
    crate::sanitize::sub_chars(s, a, b)
}

/// `s` begins with `p`.
pub open spec fn starts_with(s: Seq<char>, p: Seq<char>) -> bool {
    p.len() <= s.len() && s.take(p.len() as int) == p
}

pub fn starts_with_exec(s: &[char], p: &str) -> (r: bool)
    ensures
        r == starts_with(s@, p@),
{
    let pc = chars_of(p);
    let r = occurs_at_exec(s, pc.as_slice(), 0);
    assert(r == starts_with(s@, p@)) by {
        if p@.len() <= s@.len() {
            assert(s@.subrange(0, p@.len() as int) =~= s@.take(p@.len() as int));
        }
    }
    r
}

/// Decimal digits of a natural number (`Display` for integers).
pub open spec fn dec(n: nat) -> Seq<char>
    decreases n,
{
    if n < 10 {
        seq![('0' as u32 + n) as char]
    } else {
        dec(n / 10).push(('0' as u32 + n % 10) as char)
    }
}

fn digit_char(d: u64) -> (r: char)
    requires
        d < 10,
    ensures
        r == ('0' as u32 + d) as char,
{
    match d {
        0 => '0',
        1 => '1',
        2 => '2',
        3 => '3',
        4 => '4',
        5 => '5',
        6 => '6',
        7 => '7',
        8 => '8',
        _ => '9',
    }
}

/// The decimal text of `n`.
pub fn dec_chars(n: u64) -> (r: Vec<char>)
    ensures
        r@ == dec(n as nat),
    decreases n,
{
    if n < 10 {
        let r = vec![digit_char(n)];
        assert(r@ =~= dec(n as nat));
        r
    } else {
        let mut r = dec_chars(n / 10);
        r.push(digit_char(n % 10));
        r
    }
}

/// Pieces joined with a separator between consecutive ones (`join`).
pub open spec fn join(parts: Seq<Seq<char>>, sep: Seq<char>) -> Seq<char>
    decreases parts.len(),
{
    if parts.len() == 0 {
        Seq::empty()
    } else if parts.len() == 1 {
        parts[0]
    } else {
        join(parts.drop_last(), sep) + sep + parts.last()
    }
}

/// `str::split(c)`: the pieces between occurrences of `c` (at least one piece).
pub open spec fn split_char(s: Seq<char>, c: char) -> Seq<Seq<char>>
    decreases s.len(),
{
    match find_char(s, c) {
        Some(i) => if 0 <= i < s.len() {
            seq![s.take(i)] + split_char(s.skip(i + 1), c)
        } else {
            seq![s]
        },
        None => seq![s],
    }
}

/// Joins pieces into `out`.
pub fn join_into(out: &mut Vec<char>, parts: &Vec<Vec<char>>, sep: &str)
    ensures
        final(out)@ == old(out)@ + join(parts@.map_values(|p: Vec<char>| p@), sep@),
{
    let ghost ps = parts@.map_values(|p: Vec<char>| p@);
    let mut i: usize = 0;
    while i < parts.len()
        invariant
            ps == parts@.map_values(|p: Vec<char>| p@),
            i <= parts@.len(),
            out@ == old(out)@ + join(ps.take(i as int), sep@),
        decreases parts@.len() - i,
    {
        let ghost o = out@;
        if i > 0 {
            extend_str(out, sep);
        }
        extend_chars(out, parts[i].as_slice());
        proof {
            let t = ps.take(i + 1);
            assert(t.drop_last() =~= ps.take(i as int));
            assert(t.last() == parts@[i as int]@);
            if i == 0 {
                assert(ps.take(0) =~= Seq::<Seq<char>>::empty());
                assert(out@ =~= old(out)@ + join(t, sep@));
            } else {
                assert(out@ =~= old(out)@ + join(t, sep@));
            }
        }
        i = i + 1;
    }
    assert(ps.take(parts@.len() as int) =~= ps);
}

/// `str::replace(from, to)` with a non-empty pattern: occurrences are
/// replaced left to right, without overlapping.
pub open spec fn replace_all(s: Seq<char>, from: Seq<char>, to: Seq<char>) -> Seq<char>
    decreases s.len(),
{
    if from.len() == 0 {
        s
    } else {
        match find_seq(s, from) {
            Some(i) => if 0 <= i && i + from.len() <= s.len() {
                s.take(i) + to + replace_all(s.skip(i + from.len()), from, to)
            } else {
                s
            },
            None => s,
        }
    }
}

/// `str::replace` on a character vector.
pub fn replace_chars(s: &[char], from: &str, to: &str) -> (r: Vec<char>)
    requires
        from@.len() > 0,
    ensures
        r@ == replace_all(s@, from@, to@),
{
    let f = chars_of(from);
    let t = chars_of(to);
    let mut out: Vec<char> = Vec::new();
    let mut rest = crate::sanitize::sub_chars(s, 0, s.len());
    assert(rest@ =~= s@);
    loop
        invariant
            f@ == from@,
            t@ == to@,
            f@.len() > 0,
            out@ + replace_all(rest@, from@, to@) == replace_all(s@, from@, to@),
        decreases rest@.len(),
    {
        proof { lemma_find_seq(rest@, f@); }
        match find_chars(rest.as_slice(), f.as_slice()) {
            None => {
                let ghost o = out@;
                extend_chars(&mut out, rest.as_slice());
                return out;
            },
            Some(i) => {
                let ghost o = out@;
                let ghost r0 = rest@;
                let head = crate::sanitize::sub_chars(rest.as_slice(), 0, i);
                extend_chars(&mut out, head.as_slice());
                extend_chars(&mut out, t.as_slice());
                let rl = rest.len();
                assert(i + f@.len() <= rl);
                let next = crate::sanitize::sub_chars(rest.as_slice(), i + f.len(), rl);
                proof {
                    assert(head@ =~= r0.take(i as int));
                    assert(next@ =~= r0.skip(i + f@.len()));
                    assert(out@ =~= o + r0.take(i as int) + to@);
                    assert(out@ + replace_all(next@, from@, to@) =~= o + replace_all(r0, from@, to@));
                }
                rest = next;
            },
        }
    }
}
// ─────────────────────────────────────────────────────────────────────
// Runs of characters between separators
// ─────────────────────────────────────────────────────────────────────

/// A run is kept when it is non-empty and at least `min` characters long.
pub open spec fn keep_run(cur: Seq<char>, min: nat) -> bool {
    cur.len() > 0 && cur.len() >= min
}

/// Left-to-right scan behind `runs`: the runs closed so far and the run in
/// progress.
pub open spec fn runs_scan(s: Seq<char>, sep: spec_fn(char) -> bool, min: nat) -> (Seq<Seq<char>>, Seq<char>)
    decreases s.len(),
{
    if s.len() == 0 {
        (Seq::empty(), Seq::empty())
    } else {
        let (done, cur) = runs_scan(s.drop_last(), sep, min);
        if sep(s.last()) {
            (if keep_run(cur, min) { done.push(cur) } else { done }, Seq::empty())
        } else {
            (done, cur.push(s.last()))
        }
    }
}

/// The maximal runs of `s` that hold no separator character, in order,
/// leaving out those shorter than `min` (`split(sep)` with the short pieces
/// filtered away).
pub open spec fn runs(s: Seq<char>, sep: spec_fn(char) -> bool, min: nat) -> Seq<Seq<char>> {
    let (done, cur) = runs_scan(s, sep, min);
    if keep_run(cur, min) { done.push(cur) } else { done }
}

pub open spec fn views(v: Seq<Vec<char>>) -> Seq<Seq<char>> {
    v.map_values(|x: Vec<char>| x@)
}

/// `runs` over a character vector; `is_sep[i]` tells whether `s[i]` separates.
pub fn runs_exec(s: &[char], is_sep: &[bool], min: usize, Ghost(sep): Ghost<spec_fn(char) -> bool>) -> (r: Vec<Vec<char>>)
    requires
        is_sep@.len() == s@.len(),
        forall|i: int| 0 <= i < s@.len() ==> is_sep@[i] == sep(s@[i]),
    ensures
        views(r@) == runs(s@, sep, min as nat),
{
    let mut done: Vec<Vec<char>> = Vec::new();
    let mut cur: Vec<char> = Vec::new();
    let mut i: usize = 0;
    while i < s.len()
        invariant
            i <= s@.len(),
            is_sep@.len() == s@.len(),
            forall|k: int| 0 <= k < s@.len() ==> is_sep@[k] == sep(s@[k]),
            (views(done@), cur@) == runs_scan(s@.take(i as int), sep, min as nat),
        decreases s@.len() - i,
    {
        let ghost t = s@.take(i + 1);
        assert(t.drop_last() =~= s@.take(i as int));
        assert(t.last() == s@[i as int]);
        if is_sep[i] {
            if cur.len() > 0 && cur.len() >= min {
                let ghost d0 = done@;
                let ghost c0 = cur@;
                done.push(cur);
                assert(views(done@) =~= views(d0).push(c0));
            }
            cur = Vec::new();
        } else {
            cur.push(s[i]);
        }
        i = i + 1;
    }
    assert(s@.take(s@.len() as int) =~= s@);
    if cur.len() > 0 && cur.len() >= min {
        let ghost d0 = done@;
        let ghost c0 = cur@;
        done.push(cur);
        assert(views(done@) =~= views(d0).push(c0));
    }
    done
}

/// Keeps the first occurrence of each element, in order.
pub open spec fn dedup(s: Seq<Seq<char>>) -> Seq<Seq<char>>
    decreases s.len(),
{
    if s.len() == 0 {
        s
    } else {
        let d = dedup(s.drop_last());
        if d.contains(s.last()) { d } else { d.push(s.last()) }
    }
}

/// `dedup` over vectors of characters.
pub fn dedup_exec(v: Vec<Vec<char>>) -> (r: Vec<Vec<char>>)
    ensures
        views(r@) == dedup(views(v@)),
{
    let ghost vv = views(v@);
    let mut out: Vec<Vec<char>> = Vec::new();
    let mut k: usize = 0;
    for x in it: v
        invariant
            vv == views(it.seq()),
            views(out@) == dedup(vv.take(it.index() as int)),
    {
        let ghost i = it.index();
        let ghost t = vv.take(i + 1);
        assert(t.drop_last() =~= vv.take(i as int));
        assert(t.last() == x@);
        let mut found = false;
        let mut j: usize = 0;
        while j < out.len()
            invariant
                j <= out@.len(),
                found == exists|q: int| 0 <= q < j && out@[q]@ == x@,
            decreases out@.len() - j,
        {
            if crate::json::chars_equal(out[j].as_slice(), x.as_slice()) {
                found = true;
            }
            j = j + 1;
        }
        proof {
            let d = views(out@);
            if found {
                let q = choose|q: int| 0 <= q < out@.len() && out@[q]@ == x@;
                assert(d[q] == x@);
                assert(d.contains(x@));
            } else {
                assert forall|q: int| 0 <= q < d.len() implies d[q] != x@ by {
                    assert(d[q] == out@[q]@);
                }
                assert(!d.contains(x@));
            }
        }
        if !found {
            let ghost o = out@;
            out.push(x);
            assert(views(out@) =~= views(o).push(t.last()));
        }
    }
    assert(vv.take(vv.len() as int) =~= vv);
    out
}

// ─────────────────────────────────────────────────────────────────────
// UTF-8 lengths and character boundaries
// ─────────────────────────────────────────────────────────────────────

/// Bytes in the UTF-8 encoding of `c`.
pub open spec fn char_width(c: char) -> nat {
    if c <= '\u{7f}' {
        1
    } else if c <= '\u{7ff}' {
        2
    } else if c <= '\u{ffff}' {
        3
    } else {
        4
    }
}

/// Bytes in the UTF-8 encoding of `s` (`str::len`).
pub open spec fn utf8_len(s: Seq<char>) -> nat
    decreases s.len(),
{
    if s.len() == 0 {
        0
    } else {
        char_width(s[0]) + utf8_len(s.drop_first())
    }
}

pub proof fn lemma_utf8_len_concat(a: Seq<char>, b: Seq<char>)
    ensures
        utf8_len(a + b) == utf8_len(a) + utf8_len(b),
    decreases a.len(),
{
    if a.len() == 0 {
        assert(a + b =~= b);
    } else {
        assert((a + b).drop_first() =~= a.drop_first() + b);
        lemma_utf8_len_concat(a.drop_first(), b);
    }
}

/// One more character adds its width.
pub proof fn lemma_utf8_len_take(s: Seq<char>, k: int)
    requires
        0 <= k < s.len(),
    ensures
        utf8_len(s.take(k + 1)) == utf8_len(s.take(k)) + char_width(s[k]),
{
    assert(s.take(k + 1) =~= s.take(k) + seq![s[k]]);
    lemma_utf8_len_concat(s.take(k), seq![s[k]]);
    assert(seq![s[k]].drop_first() =~= Seq::<char>::empty());
    assert(utf8_len(seq![s[k]]) == char_width(s[k]) + utf8_len(Seq::<char>::empty()));
}

pub proof fn lemma_utf8_len_bounds(s: Seq<char>)
    ensures
        s.len() <= utf8_len(s) <= 4 * s.len(),
    decreases s.len(),
{
    if s.len() > 0 {
        lemma_utf8_len_bounds(s.drop_first());
    }
}

pub fn char_width_exec(c: char) -> (r: usize)
    ensures
        r == char_width(c),
{
    if c <= '\u{7f}' {
        1
    } else if c <= '\u{7ff}' {
        2
    } else if c <= '\u{ffff}' {
        3
    } else {
        4
    }
}

/// How many leading characters of `s` fit in `b` bytes: `str::floor_char_boundary(b)`
/// counted in characters.
pub open spec fn fit_chars(s: Seq<char>, b: int) -> nat
    decreases s.len(),
{
    if s.len() > 0 && char_width(s[0]) <= b {
        1 + fit_chars(s.drop_first(), b - char_width(s[0]))
    } else {
        0
    }
}

pub proof fn lemma_fit_chars(s: Seq<char>, b: int)
    ensures
        fit_chars(s, b) <= s.len(),
        utf8_len(s.take(fit_chars(s, b) as int)) <= b || fit_chars(s, b) == 0,
        b >= utf8_len(s) ==> fit_chars(s, b) == s.len(),
        fit_chars(s, b) < s.len() ==> utf8_len(s.take(fit_chars(s, b) + 1int)) > b,
    decreases s.len(),
{
    if s.len() > 0 {
        let w = char_width(s[0]);
        lemma_fit_chars(s.drop_first(), b - w);
        let k = fit_chars(s, b);
        if w <= b {
            let r = s.drop_first();
            let kr = fit_chars(r, b - w);
            assert(s.take(k as int) =~= seq![s[0]] + r.take(kr as int));
            lemma_utf8_len_concat(seq![s[0]], r.take(kr as int));
            assert(seq![s[0]].drop_first() =~= Seq::<char>::empty());
            if kr < r.len() {
                assert(s.take(k + 1int) =~= seq![s[0]] + r.take(kr + 1int));
                lemma_utf8_len_concat(seq![s[0]], r.take(kr + 1int));
            }
            assert(s =~= seq![s[0]] + r);
            lemma_utf8_len_concat(seq![s[0]], r);
        } else {
            assert(s.take(1) =~= seq![s[0]]);
            assert(seq![s[0]].drop_first() =~= Seq::<char>::empty());
            assert(s =~= seq![s[0]] + s.drop_first());
            lemma_utf8_len_concat(seq![s[0]], s.drop_first());
        }
    }
}

/// `s` with every trailing `c` removed (`trim_end_matches(c)`).
pub open spec fn trim_end_char(s: Seq<char>, c: char) -> Seq<char>
    decreases s.len(),
{
    if s.len() > 0 && s.last() == c {
        trim_end_char(s.drop_last(), c)
    } else {
        s
    }
}

pub fn trim_end_char_exec(s: &[char], c: char) -> (r: Vec<char>)
    ensures
        r@ == trim_end_char(s@, c),
{
    let mut n: usize = s.len();
    assert(s@.take(n as int) =~= s@);
    while n > 0 && s[n - 1] == c
        invariant
            n <= s@.len(),
            trim_end_char(s@, c) == trim_end_char(s@.take(n as int), c),
        decreases n,
    {
        let ghost t = s@.take(n as int);
        assert(t.drop_last() =~= s@.take(n - 1));
        n = n - 1;
    }
    assert(n > 0 ==> s@.take(n as int).last() == s@[n - 1]);
    crate::sanitize::sub_chars(s, 0, n)
}

} // verus!
