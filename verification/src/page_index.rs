//! Full-text memory of visited pages: an in-memory inverted index over the
//! first few kilobytes of each page's visible text, searched by word
//! prefixes, most recent first. Reading and writing the saved copy is left to
//! the caller, which hands the saved pages back through `push`.

use vstd::prelude::*;
use crate::text::{
    char_width, char_width_exec, chars_of, dedup, dedup_exec, find_chars, find_seq, fit_chars, join,
    join_into, lemma_find_seq, lemma_fit_chars, lemma_utf8_len_bounds, lemma_utf8_len_take, runs,
    runs_exec, starts_with, string_of, trim, trim_chars, trim_end_char, trim_end_char_exec, utf8_len,
    views, is_whitespace, is_whitespace_exec,
};

verus! {

pub const MAX_DOCS: usize = 2000;

pub const MAX_TEXT: usize = 6000;

pub const MIN_TERM_LEN: usize = 2;

pub const SNIPPET_CHARS: usize = 140;

/// Prefix expansion stops after this many vocabulary keys, so a one-letter
/// query cannot fan out to the whole vocabulary.
pub const MAX_PREFIX_KEYS: usize = 200;

// ─────────────────────────────────────────────────────────────────────
// Words
// ─────────────────────────────────────────────────────────────────────

/// What `str::to_lowercase` gives for a string (full Unicode case mapping).
pub uninterp spec fn lowercase(s: Seq<char>) -> Seq<char>;

/// Whether `char::is_alphanumeric` holds (Unicode `Alphabetic` or `Numeric`).
pub uninterp spec fn alphanumeric(c: char) -> bool;

/// `str::to_lowercase`; the result is named by `lowercase`.
#[verifier::external_body]
fn to_lowercase(s: &str) -> (r: String)
    ensures
        r@ == lowercase(s@),
{
    s.to_lowercase()
}

/// `char::is_alphanumeric`; the result is named by `alphanumeric`.
#[verifier::external_body]
fn is_alphanumeric(c: char) -> (r: bool)
    ensures
        r == alphanumeric(c),
{
    c.is_alphanumeric()
}

/// Characters that split words: everything that is not alphanumeric.
pub open spec fn word_sep() -> spec_fn(char) -> bool {
    |c: char| !alphanumeric(c)
}

/// Characters that split `split_whitespace`.
pub open spec fn space_sep() -> spec_fn(char) -> bool {
    |c: char| is_whitespace(c)
}

/// The index terms of a text: its lowercased alphanumeric runs of at least
/// `MIN_TERM_LEN` characters, each once, in order of first appearance.
pub open spec fn tokens(s: Seq<char>) -> Seq<Seq<char>> {
    dedup(runs(lowercase(s), word_sep(), MIN_TERM_LEN as nat))
}

/// Lowercase alphanumeric runs, deduplicated.
pub fn tokenize(text: &str) -> (r: Vec<Vec<char>>)
    ensures
        views(r@) == tokens(text@),
{
    let lower = to_lowercase(text);
    let lc = chars_of(lower.as_str());
    let mut seps: Vec<bool> = Vec::new();
    let mut i: usize = 0;
    while i < lc.len()
        invariant
            i <= lc@.len(),
            seps@.len() == i,
            forall|k: int| 0 <= k < i ==> seps@[k] == (word_sep())(lc@[k]),
        decreases lc@.len() - i,
    {
        let a = is_alphanumeric(lc[i]);
        seps.push(!a);
        i = i + 1;
    }
    let rs = runs_exec(lc.as_slice(), seps.as_slice(), MIN_TERM_LEN, Ghost(word_sep()));
    dedup_exec(rs)
}

/// Whitespace runs collapsed to single spaces, leading and trailing ones
/// dropped (`split_whitespace` joined by a space).
pub open spec fn collapse_ws_spec(s: Seq<char>) -> Seq<char> {
    join(runs(s, space_sep(), 1), " "@)
}

pub fn collapse_ws(text: &str) -> (r: Vec<char>)
    ensures
        r@ == collapse_ws_spec(text@),
{
    let tc = chars_of(text);
    let mut seps: Vec<bool> = Vec::new();
    let mut i: usize = 0;
    while i < tc.len()
        invariant
            i <= tc@.len(),
            seps@.len() == i,
            forall|k: int| 0 <= k < i ==> seps@[k] == (space_sep())(tc@[k]),
        decreases tc@.len() - i,
    {
        let w = is_whitespace_exec(tc[i]);
        seps.push(w);
        i = i + 1;
    }
    let rs = runs_exec(tc.as_slice(), seps.as_slice(), 1, Ghost(space_sep()));
    let mut out: Vec<char> = Vec::new();
    join_into(&mut out, &rs, " ");
    assert(rs@.map_values(|p: Vec<char>| p@) =~= views(rs@));
    assert(out@ =~= collapse_ws_spec(text@));
    out
}

// ─────────────────────────────────────────────────────────────────────
// Byte positions
// ─────────────────────────────────────────────────────────────────────

pub proof fn lemma_fit_chars_mono(s: Seq<char>, k: int, b: int)
    requires
        0 <= k <= s.len(),
        b >= utf8_len(s.take(k)),
    ensures
        fit_chars(s, b) >= k,
    decreases s.len(),
{
    if k > 0 {
        let r = s.drop_first();
        assert(s.take(k) =~= seq![s[0]] + r.take(k - 1));
        crate::text::lemma_utf8_len_concat(seq![s[0]], r.take(k - 1));
        assert(seq![s[0]].drop_first() =~= Seq::<char>::empty());
        lemma_fit_chars_mono(r, k - 1, b - char_width(s[0]));
    }
}

/// Bytes in the UTF-8 encoding of `s`.
fn utf8_total(s: &[char]) -> (r: usize)
    requires
        utf8_len(s@) <= usize::MAX,
    ensures
        r == utf8_len(s@),
{
    let mut used: usize = 0;
    let mut k: usize = 0;
    while k < s.len()
        invariant
            k <= s@.len(),
            used == utf8_len(s@.take(k as int)),
            utf8_len(s@) <= usize::MAX,
        decreases s@.len() - k,
    {
        proof {
            lemma_utf8_len_take(s@, k as int);
            crate::text::lemma_utf8_len_concat(s@.take(k + 1), s@.skip(k + 1));
            assert(s@.take(k + 1) + s@.skip(k + 1) =~= s@);
        }
        used = used + char_width_exec(s[k]);
        k = k + 1;
    }
    assert(s@.take(s@.len() as int) =~= s@);
    used
}

/// Bytes in the UTF-8 encoding of `s[..k]`, or `cap` when that is larger.
pub(crate) fn utf8_prefix_capped(s: &[char], k: usize, cap: usize) -> (r: usize)
    requires
        k <= s@.len(),
        cap <= usize::MAX - 4,
    ensures
        r == if utf8_len(s@.take(k as int)) <= cap { utf8_len(s@.take(k as int)) } else { cap as nat },
{
    let mut used: usize = 0;
    let mut i: usize = 0;
    while i < k
        invariant
            i <= k <= s@.len(),
            cap <= usize::MAX - 4,
            used == utf8_len(s@.take(i as int)),
            used <= cap,
        decreases k - i,
    {
        proof {
            lemma_utf8_len_take(s@, i as int);
        }
        used = used + char_width_exec(s[i]);
        i = i + 1;
        if used > cap {
            proof {
                crate::text::lemma_utf8_len_concat(s@.take(i as int), s@.subrange(i as int, k as int));
                assert(s@.take(i as int) + s@.subrange(i as int, k as int) =~= s@.take(k as int));
            }
            return cap;
        }
    }
    used
}

/// `str::floor_char_boundary(b)`, counted in characters: how many leading
/// characters fit in `b` bytes, and the bytes they take.
pub fn floor_char_boundary(s: &[char], b: usize) -> (r: (usize, usize))
    ensures
        r.0 == fit_chars(s@, b as int),
        r.1 == utf8_len(s@.take(r.0 as int)),
        r.1 <= b,
{
    proof {
        lemma_fit_chars(s@, b as int);
    }
    let mut used: usize = 0;
    let mut k: usize = 0;
    assert(s@.skip(0) =~= s@);
    while k < s.len() && char_width_exec(s[k]) <= b - used
        invariant
            k <= s@.len(),
            used <= b,
            used == utf8_len(s@.take(k as int)),
            fit_chars(s@, b as int) == k + fit_chars(s@.skip(k as int), b - used),
        decreases s@.len() - k,
    {
        proof {
            lemma_utf8_len_take(s@, k as int);
            let t = s@.skip(k as int);
            assert(t.drop_first() =~= s@.skip(k + 1));
            assert(t[0] == s@[k as int]);
        }
        used = used + char_width_exec(s[k]);
        k = k + 1;
    }
    proof {
        let t = s@.skip(k as int);
        if k < s@.len() {
            assert(t[0] == s@[k as int]);
        }
    }
    (k, used)
}

// ─────────────────────────────────────────────────────────────────────
// Snippets
// ─────────────────────────────────────────────────────────────────────

/// Where a snippet starts, in bytes: a third of `SNIPPET_CHARS` before the
/// first occurrence of `word` in the lowercased text, or the start.
pub open spec fn snippet_start(text: Seq<char>, word: Seq<char>) -> int {
    let lower = lowercase(text);
    match find_seq(lower, word) {
        Some(j) => {
            let p = utf8_len(lower.take(j)) as int;
            if p >= (SNIPPET_CHARS / 3) as int { p - (SNIPPET_CHARS / 3) as int } else { 0 }
        },
        None => 0,
    }
}

/// A window of text around the first occurrence of `word` (case-insensitive),
/// or the start of the text when the word is not in it; `…` marks a cut at
/// either end.
pub open spec fn snippet_spec(text: Seq<char>, word: Seq<char>) -> Seq<char> {
    let ks = fit_chars(text, snippet_start(text, word));
    let sb = utf8_len(text.take(ks as int));
    let total = utf8_len(text);
    let ke = fit_chars(text, if sb + SNIPPET_CHARS < total { sb + SNIPPET_CHARS } else { total as int });
    let eb = utf8_len(text.take(ke as int));
    (if sb > 0 { "…"@ } else { Seq::empty() }) + trim(text.subrange(ks as int, ke as int)) + (if eb
        < total { "…"@ } else { Seq::empty() })
}

pub fn snippet(text: &str, word: &[char]) -> (r: String)
    requires
        utf8_len(text@) <= isize::MAX,
    ensures
        r@ == snippet_spec(text@, word@),
{
    let tc = chars_of(text);
    let lower = to_lowercase(text);
    let lc = chars_of(lower.as_str());
    let total = utf8_total(tc.as_slice());
    let third = SNIPPET_CHARS / 3;
    proof {
        lemma_find_seq(lc@, word@);
        lemma_fit_chars(tc@, snippet_start(text@, word@));
        lemma_fit_chars(tc@, total as int);
    }
    let start0: usize = match find_chars(lc.as_slice(), word) {
        Some(j) => {
            let p = utf8_prefix_capped(lc.as_slice(), j, total + third);
            if p >= third {
                p - third
            } else {
                0
            }
        },
        None => 0,
    };
    let (ks, sb) = floor_char_boundary(tc.as_slice(), start0);
    assert(ks == fit_chars(text@, snippet_start(text@, word@))) by {
        lemma_fit_chars(tc@, start0 as int);
    }
    let bound = if sb + SNIPPET_CHARS < total {
        sb + SNIPPET_CHARS
    } else {
        total
    };
    let (ke, eb) = floor_char_boundary(tc.as_slice(), bound);
    proof {
        lemma_fit_chars(tc@, sb as int);
        lemma_fit_chars_mono(tc@, ks as int, bound as int);
        lemma_fit_chars(tc@, bound as int);
    }
    let piece = crate::sanitize::sub_chars(tc.as_slice(), ks, ke);
    let trimmed = trim_chars(piece.as_slice());
    let mut out: Vec<char> = Vec::new();
    if sb > 0 {
        out.push('…');
    }
    crate::text::extend_chars(&mut out, trimmed.as_slice());
    if eb < total {
        out.push('…');
    }
    proof {
        reveal_strlit("…");
        assert(out@ =~= snippet_spec(text@, word@));
    }
    string_of(out.as_slice())
}

// ─────────────────────────────────────────────────────────────────────
// Vocabulary order
// ─────────────────────────────────────────────────────────────────────

/// `a` sorts before `b` (the order of `String`, which is the order of the
/// characters' code points).
pub open spec fn lex_lt(a: Seq<char>, b: Seq<char>) -> bool
    decreases a.len(),
{
    if a.len() == 0 {
        b.len() > 0
    } else if b.len() == 0 {
        false
    } else if a[0] != b[0] {
        a[0] < b[0]
    } else {
        lex_lt(a.drop_first(), b.drop_first())
    }
}

pub proof fn lemma_lex_irrefl(a: Seq<char>)
    ensures
        !lex_lt(a, a),
    decreases a.len(),
{
    if a.len() > 0 {
        lemma_lex_irrefl(a.drop_first());
    }
}

pub proof fn lemma_lex_trans(a: Seq<char>, b: Seq<char>, c: Seq<char>)
    requires
        lex_lt(a, b),
        lex_lt(b, c),
    ensures
        lex_lt(a, c),
    decreases a.len(),
{
    if a.len() > 0 && b.len() > 0 && c.len() > 0 && a[0] == b[0] && b[0] == c[0] {
        lemma_lex_trans(a.drop_first(), b.drop_first(), c.drop_first());
    }
}

pub proof fn lemma_lex_total(a: Seq<char>, b: Seq<char>)
    requires
        a != b,
    ensures
        lex_lt(a, b) || lex_lt(b, a),
    decreases a.len(),
{
    if a.len() > 0 && b.len() > 0 && a[0] == b[0] {
        if a.drop_first() == b.drop_first() {
            assert(a =~= seq![a[0]] + a.drop_first());
            assert(b =~= seq![b[0]] + b.drop_first());
        }
        lemma_lex_total(a.drop_first(), b.drop_first());
    } else if a.len() == 0 && b.len() == 0 {
        assert(a =~= b);
    }
}

/// A word sorts no later than every key that starts with it.
pub proof fn lemma_prefix_not_less(k: Seq<char>, w: Seq<char>)
    requires
        starts_with(k, w),
    ensures
        !lex_lt(k, w),
    decreases w.len(),
{
    if w.len() > 0 {
        assert(k[0] == k.take(w.len() as int)[0]);
        assert(k.drop_first().take(w.len() - 1) =~= k.take(w.len() as int).drop_first());
        lemma_prefix_not_less(k.drop_first(), w.drop_first());
    }
}

fn lex_lt_exec(a: &[char], b: &[char]) -> (r: bool)
    ensures
        r == lex_lt(a@, b@),
{
    let mut i: usize = 0;
    assert(a@.skip(0) =~= a@);
    assert(b@.skip(0) =~= b@);
    loop
        invariant
            i <= a@.len(),
            i <= b@.len(),
            lex_lt(a@, b@) == lex_lt(a@.skip(i as int), b@.skip(i as int)),
        decreases a@.len() - i,
    {
        let ghost sa = a@.skip(i as int);
        let ghost sb = b@.skip(i as int);
        if i == a.len() {
            return i < b.len();
        }
        if i == b.len() {
            return false;
        }
        assert(sa[0] == a@[i as int] && sb[0] == b@[i as int]);
        if a[i] != b[i] {
            return a[i] < b[i];
        }
        assert(sa.drop_first() =~= a@.skip(i + 1));
        assert(sb.drop_first() =~= b@.skip(i + 1));
        i = i + 1;
    }
}

// ─────────────────────────────────────────────────────────────────────
// The index
// ─────────────────────────────────────────────────────────────────────

/// One indexed page.
#[derive(Debug)]
pub struct Doc {
    pub url: String,
    pub title: String,
    pub visited_at: u64,
    pub text: String,
}

pub struct DocModel {
    pub url: Seq<char>,
    pub title: Seq<char>,
    pub visited_at: u64,
    pub text: Seq<char>,
}

impl View for Doc {
    type V = DocModel;

    open spec fn view(&self) -> DocModel {
        DocModel { url: self.url@, title: self.title@, visited_at: self.visited_at, text: self.text@ }
    }
}

impl Doc {
    pub fn duplicate(&self) -> (r: Doc)
        ensures
            r@ == self@,
    {
        Doc {
            url: self.url.clone(),
            title: self.title.clone(),
            visited_at: self.visited_at,
            text: self.text.clone(),
        }
    }
}

/// The terms a page is found by: those of its title and text.
pub open spec fn doc_terms(d: DocModel) -> Set<Seq<char>> {
    tokens(d.title + " "@ + d.text).to_set()
}

pub open spec fn keys_of(terms: Seq<(Vec<char>, Vec<u64>)>) -> Seq<Seq<char>> {
    terms.map_values(|e: (Vec<char>, Vec<u64>)| e.0@)
}

pub open spec fn sorted_keys(keys: Seq<Seq<char>>) -> bool {
    forall|i: int, j: int| 0 <= i < j < keys.len() ==> lex_lt(#[trigger] keys[i], #[trigger] keys[j])
}

/// The posting list of key `k` holds `x`.
pub open spec fn has(terms: Seq<(Vec<char>, Vec<u64>)>, k: Seq<char>, x: u64) -> bool {
    exists|i: int| #![trigger terms[i]] 0 <= i < terms.len() && terms[i].0@ == k && terms[i].1@.contains(x)
}

pub open spec fn docs_of(docs: Seq<(u64, Doc)>) -> Seq<(u64, DocModel)> {
    docs.map_values(|e: (u64, Doc)| (e.0, e.1@))
}

/// Full-text index of visited pages.
pub struct PageIndex {
    /// Insertion order, oldest first, so eviction takes from the front.
    docs: Vec<(u64, Doc)>,
    /// Vocabulary in sorted order, each key with the ids of the pages that hold
    /// it. Ids of removed pages linger until the index is rebuilt; search
    /// drops them.
    terms: Vec<(Vec<char>, Vec<u64>)>,
    next_id: u64,
}

impl PageIndex {
    /// The pages, oldest first, each with its id.
    pub closed spec fn docs_model(&self) -> Seq<(u64, DocModel)> {
        docs_of(self.docs@)
    }

    /// The vocabulary, in sorted order.
    pub closed spec fn keys(&self) -> Seq<Seq<char>> {
        keys_of(self.terms@)
    }

    /// The id the next page gets.
    pub closed spec fn next_id(&self) -> nat {
        self.next_id as nat
    }

    pub closed spec fn wf(&self) -> bool {
        &&& sorted_keys(keys_of(self.terms@))
        &&& forall|i: int, j: int|
            0 <= i < j < self.docs@.len() ==> (#[trigger] self.docs@[i]).0 < (#[trigger] self.docs@[j]).0
        &&& forall|i: int| 0 <= i < self.docs@.len() ==> (#[trigger] self.docs@[i]).0 < self.next_id
        &&& forall|k: Seq<char>, x: u64| #[trigger] has(self.terms@, k, x) ==> x < self.next_id
        &&& forall|k: Seq<char>, p: int|
            0 <= p < self.docs@.len() ==> (#[trigger] has(self.terms@, k, self.docs@[p].0) <==> doc_terms(
                self.docs@[p].1@,
            ).contains(k))
        &&& forall|p: int| 0 <= p < self.docs@.len() ==> utf8_len((#[trigger] self.docs@[p]).1.text@) <= isize::MAX
    }

    /// An empty index.
    pub fn new() -> (r: Self)
        ensures
            r.wf(),
            r.docs_model().len() == 0,
            r.keys().len() == 0,
            r.next_id() == 0,
    {
        PageIndex { docs: Vec::new(), terms: Vec::new(), next_id: 0 }
    }

    /// Number of pages held.
    pub fn len(&self) -> (r: usize)
        ensures
            r == self.docs_model().len(),
    {
        self.docs.len()
    }

    /// Copies of the pages, oldest first (what is saved).
    pub fn documents(&self) -> (r: Vec<Doc>)
        ensures
            r@.len() == self.docs_model().len(),
            forall|i: int| 0 <= i < r@.len() ==> r@[i]@ == #[trigger] self.docs_model()[i].1,
    {
        let mut r: Vec<Doc> = Vec::new();
        let mut i: usize = 0;
        while i < self.docs.len()
            invariant
                i <= self.docs@.len(),
                r@.len() == i,
                forall|k: int| 0 <= k < i ==> r@[k]@ == #[trigger] self.docs@[k].1@,
            decreases self.docs@.len() - i,
        {
            r.push(self.docs[i].1.duplicate());
            i = i + 1;
        }
        r
    }
}

impl Default for PageIndex {
    fn default() -> (r: Self)
        ensures
            r.wf(),
            r.docs_model().len() == 0,
            r.keys().len() == 0,
            r.next_id() == 0,
    {
        PageIndex::new()
    }
}

/// Adds `id` to the posting list of `t`, creating the key in its sorted place
/// when it is new.
fn add_term(terms: &mut Vec<(Vec<char>, Vec<u64>)>, t: Vec<char>, id: u64)
    requires
        sorted_keys(keys_of(old(terms)@)),
    ensures
        sorted_keys(keys_of(final(terms)@)),
        keys_of(final(terms)@).to_set() == keys_of(old(terms)@).to_set().insert(t@),
        forall|k: Seq<char>, x: u64|
            #[trigger] has(final(terms)@, k, x) <==> has(old(terms)@, k, x) || (k == t@ && x == id),
{
    let ghost old_terms = terms@;
    let ghost ks = keys_of(terms@);
    let mut lo: usize = 0;
    let mut hi: usize = terms.len();
    while lo < hi
        invariant
            terms@ == old_terms,
            ks == keys_of(old_terms),
            sorted_keys(ks),
            0 <= lo <= hi <= terms@.len(),
            forall|j: int| 0 <= j < lo ==> lex_lt(#[trigger] ks[j], t@),
            forall|j: int| hi <= j < terms@.len() ==> !lex_lt(#[trigger] ks[j], t@),
        decreases hi - lo,
    {
        let mid = lo + (hi - lo) / 2;
        assert(ks[mid as int] == terms@[mid as int].0@);
        if lex_lt_exec(terms[mid].0.as_slice(), t.as_slice()) {
            assert forall|j: int| 0 <= j < mid + 1 implies lex_lt(#[trigger] ks[j], t@) by {
                if j < mid {
                    lemma_lex_trans(ks[j], ks[mid as int], t@);
                }
            }
            lo = mid + 1;
        } else {
            assert forall|j: int| mid <= j < terms@.len() implies !lex_lt(#[trigger] ks[j], t@) by {
                if j > mid && lex_lt(ks[j], t@) {
                    lemma_lex_trans(ks[mid as int], ks[j], t@);
                }
            }
            hi = mid;
        }
    }
    if lo < terms.len() && crate::json::chars_equal(terms[lo].0.as_slice(), t.as_slice()) {
        let mut e = terms.remove(lo);
        let ghost e0 = e;
        e.1.push(id);
        terms.insert(lo, e);
        proof {
            assert(terms@ =~= old_terms.update(lo as int, e));
            assert(keys_of(terms@) =~= ks);
            assert(ks.contains(t@)) by {
                assert(ks[lo as int] == t@);
            }
            assert(ks.to_set().insert(t@) =~= ks.to_set());
            assert forall|k: Seq<char>, x: u64|
                #[trigger] has(terms@, k, x) <==> has(old_terms, k, x) || (k == t@ && x == id) by {
                if has(terms@, k, x) {
                    let i = choose|i: int| #![trigger terms@[i]]
                        0 <= i < terms@.len() && terms@[i].0@ == k && terms@[i].1@.contains(x);
                    if i != lo {
                        assert(old_terms[i] == terms@[i]);
                    } else if x != id {
                        let q = choose|q: int| 0 <= q < terms@[i].1@.len() && terms@[i].1@[q] == x;
                        assert(e.1@ == e0.1@.push(id));
                        assert(e0.1@[q] == x);
                        assert(old_terms[i].1@.contains(x));
                    }
                }
                if has(old_terms, k, x) {
                    let i = choose|i: int| #![trigger old_terms[i]]
                        0 <= i < old_terms.len() && old_terms[i].0@ == k && old_terms[i].1@.contains(x);
                    if i != lo {
                        assert(old_terms[i] == terms@[i]);
                    } else {
                        let q = choose|q: int| 0 <= q < old_terms[i].1@.len() && old_terms[i].1@[q] == x;
                        assert(e.1@[q] == x);
                        assert(terms@[i].1@.contains(x));
                    }
                }
                if k == t@ && x == id {
                    assert(e.1@[e.1@.len() - 1] == id);
                    assert(terms@[lo as int].1@.contains(id));
                }
            }
        }
    } else {
        let ghost tv = t@;
        let entry = (t, vec![id]);
        assert(entry.1@ =~= seq![id]);
        terms.insert(lo, entry);
        proof {
            let nk = keys_of(terms@);
            assert(nk =~= ks.insert(lo as int, tv));
            if lo < ks.len() {
                assert(ks[lo as int] != tv);
                lemma_lex_total(ks[lo as int], tv);
            }
            assert forall|i: int, j: int| 0 <= i < j < nk.len() implies lex_lt(#[trigger] nk[i], #[trigger] nk[j]) by {
                if j < lo {
                    assert(nk[i] == ks[i] && nk[j] == ks[j]);
                } else if j == lo {
                    assert(nk[i] == ks[i]);
                } else if i == lo {
                    assert(nk[j] == ks[j - 1]);
                    if j - 1 > lo {
                        lemma_lex_trans(tv, ks[lo as int], ks[j - 1]);
                    }
                } else if i < lo {
                    assert(nk[i] == ks[i] && nk[j] == ks[j - 1]);
                } else {
                    assert(nk[i] == ks[i - 1] && nk[j] == ks[j - 1]);
                }
            }
            assert(nk.to_set() =~= ks.to_set().insert(tv)) by {
                assert forall|k: Seq<char>| nk.to_set().contains(k) <==> ks.to_set().insert(tv).contains(k) by {
                    if nk.to_set().contains(k) {
                        let i = choose|i: int| 0 <= i < nk.len() && nk[i] == k;
                        if i < lo {
                            assert(ks[i] == k);
                        } else if i > lo {
                            assert(ks[i - 1] == k);
                        }
                    }
                    if ks.to_set().contains(k) {
                        let i = choose|i: int| 0 <= i < ks.len() && ks[i] == k;
                        if i < lo {
                            assert(nk[i] == k);
                        } else {
                            assert(nk[i + 1] == k);
                        }
                    }
                    if k == tv {
                        assert(nk[lo as int] == k);
                    }
                }
            }
            assert forall|k: Seq<char>, x: u64|
                #[trigger] has(terms@, k, x) <==> has(old_terms, k, x) || (k == tv && x == id) by {
                if has(terms@, k, x) {
                    let i = choose|i: int| #![trigger terms@[i]]
                        0 <= i < terms@.len() && terms@[i].0@ == k && terms@[i].1@.contains(x);
                    if i < lo {
                        assert(old_terms[i] == terms@[i]);
                    } else if i > lo {
                        assert(old_terms[i - 1] == terms@[i]);
                    } else {
                        let q = choose|q: int| 0 <= q < terms@[i].1@.len() && terms@[i].1@[q] == x;
                    }
                }
                if has(old_terms, k, x) {
                    let i = choose|i: int| #![trigger old_terms[i]]
                        0 <= i < old_terms.len() && old_terms[i].0@ == k && old_terms[i].1@.contains(x);
                    if i < lo {
                        assert(old_terms[i] == terms@[i]);
                    } else {
                        assert(old_terms[i] == terms@[i + 1]);
                    }
                }
                if k == tv && x == id {
                    assert(terms@[lo as int].1@[0] == id);
                    assert(terms@[lo as int].1@.contains(id));
                }
            }
        }
    }
}

impl PageIndex {
    /// Adds a page under the next id and files its terms.
    pub fn push(&mut self, doc: Doc)
        requires
            old(self).wf(),
            old(self).next_id() < u64::MAX,
            utf8_len(doc.text@) <= isize::MAX,
        ensures
            final(self).wf(),
            final(self).docs_model() == old(self).docs_model().push((old(self).next_id() as u64, doc@)),
            final(self).keys().to_set() == old(self).keys().to_set() + doc_terms(doc@),
            final(self).next_id() == old(self).next_id() + 1,
    {
        let id = self.next_id;
        let mut combined: Vec<char> = chars_of(doc.title.as_str());
        combined.push(' ');
        crate::text::extend_str(&mut combined, doc.text.as_str());
        let cs = string_of(combined.as_slice());
        proof { reveal_strlit(" "); }
        assert(cs@ =~= doc.title@ + " "@ + doc.text@);
        let ts = tokenize(cs.as_str());
        let ghost tv = views(ts@);
        let ghost old_terms = self.terms@;
        let ghost old_docs = self.docs@;
        for t in it: ts
            invariant
                tv == views(it.seq()),
                self.docs@ == old_docs,
                self.next_id == id,
                sorted_keys(keys_of(self.terms@)),
                keys_of(self.terms@).to_set() == keys_of(old_terms).to_set() + tv.take(it.index() as int).to_set(),
                forall|k: Seq<char>, x: u64|
                    #[trigger] has(self.terms@, k, x) <==> has(old_terms, k, x) || (x == id
                        && tv.take(it.index() as int).contains(k)),
        {
            let ghost i = it.index();
            let ghost before = self.terms@;
            let ghost tt = t@;
            add_term(&mut self.terms, t, id);
            proof {
                let a = tv.take(i as int);
                let b = tv.take(i + 1);
                assert(b =~= a.push(tt));
                a.lemma_push_to_set_commute(tt);
                assert(b.to_set() =~= a.to_set().insert(tt));
                assert(keys_of(self.terms@).to_set() =~= keys_of(old_terms).to_set() + b.to_set());
                assert forall|k: Seq<char>, x: u64|
                    #[trigger] has(self.terms@, k, x) <==> has(old_terms, k, x) || (x == id && b.contains(k)) by {
                    assert(has(self.terms@, k, x) <==> has(before, k, x) || (k == tt && x == id));
                    if b.contains(k) && !a.contains(k) {
                        let q = choose|q: int| 0 <= q < b.len() && b[q] == k;
                        assert(q == i);
                    }
                    if a.contains(k) {
                        let q = choose|q: int| 0 <= q < a.len() && a[q] == k;
                        assert(b[q] == k);
                    }
                    if k == tt {
                        assert(b[i as int] == k);
                    }
                }
            }
        }
        assert(tv.take(tv.len() as int) =~= tv);
        let ghost dv = doc@;
        self.docs.push((id, doc));
        self.next_id = id + 1;
        proof {
            assert(docs_of(self.docs@) =~= docs_of(old_docs).push((id, dv)));
            assert(keys_of(self.terms@).to_set() =~= keys_of(old_terms).to_set() + doc_terms(dv));
            let n = old_docs.len();
            assert forall|k: Seq<char>, p: int| 0 <= p < self.docs@.len() implies (#[trigger] has(
                self.terms@,
                k,
                self.docs@[p].0,
            ) <==> doc_terms(self.docs@[p].1@).contains(k)) by {
                if p < n {
                    assert(self.docs@[p] == old_docs[p]);
                    assert(old_docs[p].0 < id);
                } else {
                    assert(self.docs@[p].0 == id);
                    assert(self.docs@[p].1@ == dv);
                    if has(old_terms, k, id) {
                        assert(id < id);
                    }
                }
            }
            assert forall|i: int, j: int|
                0 <= i < j < self.docs@.len() implies (#[trigger] self.docs@[i]).0 < (
                #[trigger] self.docs@[j]).0 by {
                if j < n {
                    assert(self.docs@[i] == old_docs[i] && self.docs@[j] == old_docs[j]);
                } else {
                    assert(self.docs@[i] == old_docs[i]);
                }
            }
            assert forall|p: int| 0 <= p < self.docs@.len() implies utf8_len(
                (#[trigger] self.docs@[p]).1.text@,
            ) <= isize::MAX by {
                if p < n {
                    assert(self.docs@[p] == old_docs[p]);
                }
            }
            assert forall|p: int| 0 <= p < self.docs@.len() implies (#[trigger] self.docs@[p]).0 < self.next_id by {
                if p < n {
                    assert(self.docs@[p] == old_docs[p]);
                }
            }
        }
    }
}

// ─────────────────────────────────────────────────────────────────────
// Indexing a page
// ─────────────────────────────────────────────────────────────────────

#[verifier::external_type_specification]
#[verifier::external_body]
pub struct ExSystemTime(std::time::SystemTime);

/// `SystemTime::now`; nothing is claimed of the clock.
#[verifier::external_body]
fn system_now() -> (r: std::time::SystemTime) {
    std::time::SystemTime::now()
}

/// `SystemTime::duration_since(UNIX_EPOCH)`, `None` when the clock is set
/// before the epoch; nothing is claimed of the duration.
#[verifier::external_body]
fn since_epoch(t: &std::time::SystemTime) -> (r: Option<core::time::Duration>) {
    t.duration_since(std::time::UNIX_EPOCH).ok()
}

/// `Duration::as_secs`; nothing is claimed of the value.
#[verifier::external_body]
fn whole_secs(d: &core::time::Duration) -> (r: u64) {
    d.as_secs()
}

/// Seconds since the Unix epoch, 0 when the clock is set before it. The
/// value rests on the clock alone, and any `u64` can come back, so nothing is
/// claimed of it.
pub fn unix_now() -> u64 {
    match since_epoch(&system_now()) {
        Some(d) => whole_secs(&d),
        None => 0,
    }
}

/// Two URLs name the same page when they agree up to trailing slashes.
pub open spec fn same_page(a: Seq<char>, b: Seq<char>) -> bool {
    trim_end_char(a, '/') == trim_end_char(b, '/')
}

/// The stored text: at most `MAX_TEXT` bytes, cut at a character boundary.
pub open spec fn clip_text(c: Seq<char>) -> Seq<char> {
    c.take(fit_chars(c, MAX_TEXT as int) as int)
}

pub open spec fn other_pages(url: Seq<char>) -> spec_fn((u64, DocModel)) -> bool {
    |e: (u64, DocModel)| !same_page(e.1.url, url)
}

/// The oldest pages dropped until there is room for one more under `max_docs`.
pub open spec fn make_room(docs: Seq<(u64, DocModel)>, max_docs: nat) -> Seq<(u64, DocModel)> {
    if docs.len() >= max_docs {
        docs.skip(docs.len() - max_docs + 1)
    } else {
        docs
    }
}

/// What indexing `text` for `url` at time `now` makes of an index: blank text
/// changes nothing; otherwise every page with the same URL goes, the oldest
/// pages make room, and the new page comes last with its text collapsed and
/// clipped.
pub open spec fn indexed(
    old_docs: Seq<(u64, DocModel)>,
    old_keys: Seq<Seq<char>>,
    old_next: nat,
    new_docs: Seq<(u64, DocModel)>,
    new_keys: Seq<Seq<char>>,
    new_next: nat,
    url: Seq<char>,
    title: Seq<char>,
    text: Seq<char>,
    max_docs: nat,
    now: u64,
) -> bool {
    let c = collapse_ws_spec(text);
    if c.len() == 0 {
        new_docs == old_docs && new_keys == old_keys && new_next == old_next
    } else {
        let d = DocModel { url, title, visited_at: now, text: clip_text(c) };
        &&& new_docs == make_room(old_docs.filter(other_pages(url)), max_docs).push((old_next as u64, d))
        &&& new_keys.to_set() == old_keys.to_set() + doc_terms(d)
        &&& new_next == old_next + 1
    }
}

impl PageIndex {
    /// Index (or re-index) one page, stamped `now`. Empty text is ignored so a
    /// blank paint never overwrites a good snapshot of the same URL.
    pub fn index_at(&mut self, url: &str, title: &str, text: &str, max_docs: usize, now: u64)
        requires
            old(self).wf(),
            old(self).next_id() < u64::MAX,
            max_docs >= 1,
        ensures
            final(self).wf(),
            indexed(
                old(self).docs_model(),
                old(self).keys(),
                old(self).next_id(),
                final(self).docs_model(),
                final(self).keys(),
                final(self).next_id(),
                url@,
                title@,
                text@,
                max_docs as nat,
                now,
            ),
    {
        let c = collapse_ws(text);
        if c.len() == 0 {
            return;
        }
        let uc = chars_of(url);
        let key = trim_end_char_exec(uc.as_slice(), '/');
        let ghost pred = other_pages(url@);
        let ghost od = self.docs@;
        let ghost om = docs_of(od);
        let mut tmp: Vec<(u64, Doc)> = Vec::new();
        std::mem::swap(&mut self.docs, &mut tmp);
        assert(tmp@ == od);
        for e in it: tmp
            invariant
                it.seq() == od,
                od == old(self).docs@,
                self.terms@ == old(self).terms@,
                self.next_id == old(self).next_id,
                pred == other_pages(url@),
                om == docs_of(od),
                key@ == trim_end_char(url@, '/'),
                docs_of(self.docs@) == docs_of(od.take(it.index() as int)).filter(pred),
                forall|q: int| 0 <= q < self.docs@.len() ==> od.contains(#[trigger] self.docs@[q]),
                forall|q: int, j: int|
                    0 <= q < self.docs@.len() && it.index() <= j < od.len() ==> (#[trigger] self.docs@[q]).0
                        < (#[trigger] od[j]).0,
                forall|q: int, r: int|
                    0 <= q < r < self.docs@.len() ==> (#[trigger] self.docs@[q]).0 < (#[trigger] self.docs@[r]).0,
                forall|i: int, j: int| 0 <= i < j < od.len() ==> (#[trigger] od[i]).0 < (#[trigger] od[j]).0,
        {
            let ghost i = it.index();
            let ghost before = self.docs@;
            let ec = chars_of(e.1.url.as_str());
            let ek = trim_end_char_exec(ec.as_slice(), '/');
            let keep = !crate::json::chars_equal(ek.as_slice(), key.as_slice());
            proof {
                let t = docs_of(od.take(i + 1));
                assert(t =~= docs_of(od.take(i as int)).push((e.0, e.1@)));
                docs_of(od.take(i as int)).lemma_filter_push((e.0, e.1@), pred);
                assert(keep == pred((e.0, e.1@)));
                assert(od[i as int] == e);
            }
            if keep {
                self.docs.push(e);
                proof {
                    assert(docs_of(self.docs@) =~= docs_of(before).push((e.0, e.1@)));
                }
            }
        }
        assert(od.take(od.len() as int) =~= od);
        let ghost f = om.filter(pred);
        assert(docs_of(self.docs@) == f);
        let mut dropped: usize = 0;
        let n0 = self.docs.len();
        let ghost fd = self.docs@;
        let ghost excess: int = if f.len() >= max_docs { f.len() - max_docs + 1 } else { 0 };
        while self.docs.len() >= max_docs
            invariant
                max_docs >= 1,
                self.terms@ == old(self).terms@,
                self.next_id == old(self).next_id,
                fd.len() == f.len(),
                fd.len() <= usize::MAX,
                docs_of(fd) == f,
                excess == (if f.len() >= max_docs { f.len() - max_docs + 1 } else { 0 }),
                self.docs@ == fd.skip(dropped as int),
                dropped <= excess,
            decreases self.docs@.len(),
        {
            let ghost b = self.docs@;
            self.docs.remove(0);
            assert(self.docs@ =~= fd.skip(dropped + 1));
            dropped = dropped + 1;
        }
        assert(dropped == excess);
        assert(docs_of(self.docs@) =~= make_room(f, max_docs as nat));
        let (kc, _) = floor_char_boundary(c.as_slice(), MAX_TEXT);
        proof {
            lemma_fit_chars(c@, MAX_TEXT as int);
        }
        let clipped = crate::sanitize::sub_chars(c.as_slice(), 0, kc);
        proof {
            assert(clipped@ =~= clip_text(c@));
            // every page kept is one the index held before
            assert forall|q: int| 0 <= q < self.docs@.len() implies od.contains(#[trigger] self.docs@[q]) by {
                assert(self.docs@[q] == fd[q + dropped]);
            }
        }
        let doc = Doc { url: url.to_owned(), title: title.to_owned(), visited_at: now, text: string_of(clipped.as_slice()) };
        proof {
            let n = self.docs@.len();
            assert forall|k: Seq<char>, p: int| 0 <= p < self.docs@.len() implies (#[trigger] has(
                self.terms@,
                k,
                self.docs@[p].0,
            ) <==> doc_terms(self.docs@[p].1@).contains(k)) by {
                let j = choose|j: int| 0 <= j < od.len() && od[j] == self.docs@[p];
            }
            assert forall|q: int, r: int|
                0 <= q < r < self.docs@.len() implies (#[trigger] self.docs@[q]).0 < (
                #[trigger] self.docs@[r]).0 by {
                assert(self.docs@[q] == fd[q + dropped] && self.docs@[r] == fd[r + dropped]);
            }
            assert forall|p: int| 0 <= p < self.docs@.len() implies (#[trigger] self.docs@[p]).0 < self.next_id by {
                let j = choose|j: int| 0 <= j < od.len() && od[j] == self.docs@[p];
            }
            assert forall|p: int| 0 <= p < self.docs@.len() implies utf8_len(
                (#[trigger] self.docs@[p]).1.text@,
            ) <= isize::MAX by {
                let j = choose|j: int| 0 <= j < od.len() && od[j] == self.docs@[p];
            }
            lemma_utf8_len_bounds(clipped@);
        }
        self.push(doc);
    }

    /// `index_at` stamped with the clock, keeping at most `max_docs` pages.
    pub fn index_capped(&mut self, url: &str, title: &str, text: &str, max_docs: usize)
        requires
            old(self).wf(),
            old(self).next_id() < u64::MAX,
            max_docs >= 1,
        ensures
            final(self).wf(),
            exists|now: u64|
                indexed(
                    old(self).docs_model(),
                    old(self).keys(),
                    old(self).next_id(),
                    final(self).docs_model(),
                    final(self).keys(),
                    final(self).next_id(),
                    url@,
                    title@,
                    text@,
                    max_docs as nat,
                    now,
                ),
    {
        let now = unix_now();
        self.index_at(url, title, text, max_docs, now);
    }

    /// Index (or re-index) one page, keeping at most `MAX_DOCS` pages.
    pub fn index(&mut self, url: &str, title: &str, text: &str)
        requires
            old(self).wf(),
            old(self).next_id() < u64::MAX,
        ensures
            final(self).wf(),
            exists|now: u64|
                indexed(
                    old(self).docs_model(),
                    old(self).keys(),
                    old(self).next_id(),
                    final(self).docs_model(),
                    final(self).keys(),
                    final(self).next_id(),
                    url@,
                    title@,
                    text@,
                    MAX_DOCS as nat,
                    now,
                ),
    {
        self.index_capped(url, title, text, MAX_DOCS);
    }
}

// ─────────────────────────────────────────────────────────────────────
// Search
// ─────────────────────────────────────────────────────────────────────

/// One search result.
#[derive(Debug, Clone, PartialEq)]
pub struct Hit {
    pub title: String,
    pub url: String,
    pub visited_at: u64,
    pub snippet: String,
}

pub struct HitModel {
    pub title: Seq<char>,
    pub url: Seq<char>,
    pub visited_at: u64,
    pub snippet: Seq<char>,
}

impl View for Hit {
    type V = HitModel;

    open spec fn view(&self) -> HitModel {
        HitModel { title: self.title@, url: self.url@, visited_at: self.visited_at, snippet: self.snippet@ }
    }
}

/// How many of the first `n` keys start with `w`.
pub open spec fn prefix_count(keys: Seq<Seq<char>>, w: Seq<char>, n: int) -> nat
    decreases n,
{
    if n <= 0 {
        0
    } else {
        prefix_count(keys, w, n - 1) + if starts_with(keys[n - 1], w) { 1nat } else { 0nat }
    }
}

/// Key `i` is one of the first `MAX_PREFIX_KEYS` keys (in sorted order) that
/// start with `w`.
pub open spec fn expands_to(keys: Seq<Seq<char>>, w: Seq<char>, i: int) -> bool {
    starts_with(keys[i], w) && prefix_count(keys, w, i) < MAX_PREFIX_KEYS
}

/// A page matches a query word when it holds a key the word expands to.
pub open spec fn matches_word(keys: Seq<Seq<char>>, terms: Set<Seq<char>>, w: Seq<char>) -> bool {
    exists|i: int| 0 <= i < keys.len() && #[trigger] expands_to(keys, w, i) && terms.contains(keys[i])
}

/// A page matches a query when it matches every word of it.
pub open spec fn matches_query(keys: Seq<Seq<char>>, terms: Set<Seq<char>>, words: Seq<Seq<char>>) -> bool {
    forall|j: int| 0 <= j < words.len() ==> #[trigger] matches_word(keys, terms, words[j])
}

/// Page `a` is listed before page `b`: visited more recently, or at the same
/// second and indexed later.
pub open spec fn listed_before(docs: Seq<(u64, DocModel)>, a: int, b: int) -> bool {
    docs[a].1.visited_at > docs[b].1.visited_at || (docs[a].1.visited_at == docs[b].1.visited_at && a
        > b)
}

/// `ps` lists the first `limit` pages satisfying `matched`, in listing order.
pub open spec fn ranked(docs: Seq<(u64, DocModel)>, matched: spec_fn(int) -> bool, limit: nat, ps: Seq<int>) -> bool {
    &&& ps.len() <= limit
    &&& forall|i: int| 0 <= i < ps.len() ==> 0 <= #[trigger] ps[i] < docs.len() && matched(ps[i])
    &&& forall|i: int, j: int| 0 <= i < j < ps.len() ==> listed_before(docs, #[trigger] ps[i], #[trigger] ps[j])
    &&& forall|q: int|
        0 <= q < docs.len() && #[trigger] matched(q) && !ps.contains(q) ==> ps.len() == limit && forall|i: int|
            0 <= i < ps.len() ==> listed_before(docs, #[trigger] ps[i], q)
}

pub open spec fn hit_of(d: DocModel, w: Seq<char>) -> HitModel {
    HitModel { title: d.title, url: d.url, visited_at: d.visited_at, snippet: snippet_spec(d.text, w) }
}

pub open spec fn query_matches(docs: Seq<(u64, DocModel)>, keys: Seq<Seq<char>>, words: Seq<Seq<char>>) -> spec_fn(int) -> bool {
    |p: int| matches_query(keys, doc_terms(docs[p].1), words)
}

/// The hits for `query`: none when it has no words; otherwise the pages that
/// match every word, most recent first, at most `limit` of them, each with a
/// snippet around the query's first word.
pub open spec fn search_result(
    docs: Seq<(u64, DocModel)>,
    keys: Seq<Seq<char>>,
    query: Seq<char>,
    limit: nat,
    hits: Seq<HitModel>,
) -> bool {
    let words = tokens(query);
    if words.len() == 0 {
        hits.len() == 0
    } else {
        exists|ps: Seq<int>|
            ranked(docs, query_matches(docs, keys, words), limit, ps) && hits == ps.map_values(
                |p: int| hit_of(docs[p].1, words[0]),
            )
    }
}

/// Keys up to `i` that `w` expands to, reduced to whether one lists `id`.
pub open spec fn marked(terms: Seq<(Vec<char>, Vec<u64>)>, w: Seq<char>, i: int, id: u64) -> bool
    decreases i,
{
    if i <= 0 {
        false
    } else {
        marked(terms, w, i - 1, id) || (expands_to(keys_of(terms), w, i - 1) && terms[i - 1].1@.contains(
            id,
        ))
    }
}

proof fn lemma_distinct_keys(terms: Seq<(Vec<char>, Vec<u64>)>, i: int, j: int)
    requires
        sorted_keys(keys_of(terms)),
        0 <= i < terms.len(),
        0 <= j < terms.len(),
        terms[i].0@ == terms[j].0@,
    ensures
        i == j,
{
    let ks = keys_of(terms);
    assert(ks[i] == terms[i].0@ && ks[j] == terms[j].0@);
    if i < j {
        lemma_lex_irrefl(ks[i]);
    } else if j < i {
        lemma_lex_irrefl(ks[j]);
    }
}

proof fn lemma_marked(terms: Seq<(Vec<char>, Vec<u64>)>, w: Seq<char>, n: int, id: u64)
    requires
        sorted_keys(keys_of(terms)),
        0 <= n <= terms.len(),
    ensures
        marked(terms, w, n, id) <==> exists|i: int|
            0 <= i < n && #[trigger] expands_to(keys_of(terms), w, i) && has(terms, keys_of(terms)[i], id),
    decreases n,
{
    let ks = keys_of(terms);
    if n > 0 {
        lemma_marked(terms, w, n - 1, id);
        if has(terms, ks[n - 1], id) {
            let i2 = choose|i2: int| #![trigger terms[i2]]
                0 <= i2 < terms.len() && terms[i2].0@ == ks[n - 1] && terms[i2].1@.contains(id);
            lemma_distinct_keys(terms, i2, n - 1);
        }
        if expands_to(ks, w, n - 1) && terms[n - 1].1@.contains(id) {
            assert(has(terms, ks[n - 1], id));
        }
        if marked(terms, w, n - 1, id) {
            let i = choose|i: int| 0 <= i < n - 1 && #[trigger] expands_to(ks, w, i) && has(terms, ks[i], id);
            assert(0 <= i < n && expands_to(ks, w, i) && has(terms, ks[i], id));
        }
        if exists|i: int| 0 <= i < n && #[trigger] expands_to(ks, w, i) && has(terms, ks[i], id) {
            let i = choose|i: int| 0 <= i < n && #[trigger] expands_to(ks, w, i) && has(terms, ks[i], id);
            if i == n - 1 {
                let i2 = choose|i2: int| #![trigger terms[i2]]
                    0 <= i2 < terms.len() && terms[i2].0@ == ks[n - 1] && terms[i2].1@.contains(id);
                lemma_distinct_keys(terms, i2, n - 1);
            }
        }
    }
}

fn prefix_of(key: &[char], w: &[char]) -> (r: bool)
    ensures
        r == starts_with(key@, w@),
{
    let r = crate::text::occurs_at_exec(key, w, 0);
    assert(r == starts_with(key@, w@)) by {
        if w@.len() <= key@.len() {
            assert(key@.subrange(0, w@.len() as int) =~= key@.take(w@.len() as int));
        }
    }
    r
}

/// The position of the page with id `id`, by binary search over ascending ids.
fn find_doc(docs: &Vec<(u64, Doc)>, id: u64) -> (r: Option<usize>)
    requires
        forall|i: int, j: int| 0 <= i < j < docs@.len() ==> (#[trigger] docs@[i]).0 < (#[trigger] docs@[j]).0,
    ensures
        match r {
            Some(p) => p < docs@.len() && docs@[p as int].0 == id,
            None => forall|p: int| 0 <= p < docs@.len() ==> (#[trigger] docs@[p]).0 != id,
        },
{
    let mut lo: usize = 0;
    let mut hi: usize = docs.len();
    while lo < hi
        invariant
            0 <= lo <= hi <= docs@.len(),
            forall|i: int, j: int| 0 <= i < j < docs@.len() ==> (#[trigger] docs@[i]).0 < (#[trigger] docs@[j]).0,
            forall|p: int| 0 <= p < lo ==> (#[trigger] docs@[p]).0 < id,
            forall|p: int| hi <= p < docs@.len() ==> (#[trigger] docs@[p]).0 > id,
        decreases hi - lo,
    {
        let mid = lo + (hi - lo) / 2;
        let v = docs[mid].0;
        if v == id {
            return Some(mid);
        } else if v < id {
            lo = mid + 1;
        } else {
            hi = mid;
        }
    }
    None
}

/// Positions of the first `limit` pages satisfying `matched`, in listing order.
fn rank(docs: &Vec<(u64, Doc)>, matched: &Vec<bool>, limit: usize, Ghost(pred): Ghost<spec_fn(int) -> bool>) -> (ps: Vec<usize>)
    requires
        matched@.len() == docs@.len(),
        forall|p: int| 0 <= p < docs@.len() ==> matched@[p] == pred(p),
    ensures
        ranked(docs_of(docs@), pred, limit as nat, ps@.map_values(|x: usize| x as int)),
{
    let ghost dm = docs_of(docs@);
    let n = docs.len();
    let mut ps: Vec<usize> = Vec::new();
    loop
        invariant
            n == docs@.len(),
            dm == docs_of(docs@),
            matched@.len() == n,
            forall|p: int| 0 <= p < n ==> matched@[p] == pred(p),
            ps@.len() <= limit,
            forall|i: int| 0 <= i < ps@.len() ==> (#[trigger] ps@[i]) < n && pred(ps@[i] as int),
            forall|i: int, j: int|
                0 <= i < j < ps@.len() ==> listed_before(dm, (#[trigger] ps@[i]) as int, (#[trigger] ps@[j]) as int),
            forall|q: int, i: int|
                #![trigger ps@[i], pred(q)]
                0 <= q < n && pred(q) && !ps@.map_values(|x: usize| x as int).contains(q) && 0 <= i < ps@.len()
                    ==> listed_before(dm, ps@[i] as int, q),
        ensures
            ps@.len() <= limit,
            forall|i: int| 0 <= i < ps@.len() ==> (#[trigger] ps@[i]) < n && pred(ps@[i] as int),
            forall|i: int, j: int|
                0 <= i < j < ps@.len() ==> listed_before(dm, (#[trigger] ps@[i]) as int, (#[trigger] ps@[j]) as int),
            forall|q: int|
                0 <= q < n && #[trigger] pred(q) && !ps@.map_values(|x: usize| x as int).contains(q) ==> ps@.len()
                    == limit && forall|i: int| 0 <= i < ps@.len() ==> listed_before(dm, (#[trigger] ps@[i]) as int, q),
        decreases limit - ps@.len(),
    {
        if ps.len() >= limit {
            break;
        }
        let mut best: Option<usize> = None;
        let mut p: usize = 0;
        while p < n
            invariant
                p <= n,
                n == docs@.len(),
                dm == docs_of(docs@),
                matched@.len() == n,
                forall|i: int| 0 <= i < ps@.len() ==> (#[trigger] ps@[i]) < n,
                match best {
                    Some(b) => b < p && matched@[b as int] && (ps@.len() == 0 || listed_before(
                        dm,
                        ps@.last() as int,
                        b as int,
                    )) && forall|q: int|
                        0 <= q < p && matched@[q] && (ps@.len() == 0 || listed_before(dm, ps@.last() as int, q))
                            ==> q == b || listed_before(dm, b as int, q),
                    None => forall|q: int|
                        0 <= q < p && matched@[q] ==> !(ps@.len() == 0 || listed_before(dm, ps@.last() as int, q)),
                },
            decreases n - p,
        {
            if matched[p] {
                let below = if ps.len() == 0 {
                    true
                } else {
                    let l = ps[ps.len() - 1];
                    docs[l].1.visited_at > docs[p].1.visited_at || (docs[l].1.visited_at
                        == docs[p].1.visited_at && l > p)
                };
                if below {
                    let better = match best {
                        None => true,
                        Some(b) => docs[p].1.visited_at > docs[b].1.visited_at || (docs[p].1.visited_at
                            == docs[b].1.visited_at && p > b),
                    };
                    if better {
                        best = Some(p);
                    }
                }
            }
            p = p + 1;
        }
        match best {
            None => {
                proof {
                    let psm = ps@.map_values(|x: usize| x as int);
                    assert forall|q: int|
                        0 <= q < n && pred(q) && !psm.contains(q) implies ps@.len() == limit && forall|i: int|
                        0 <= i < ps@.len() ==> listed_before(dm, (#[trigger] ps@[i]) as int, q) by {
                        assert(matched@[q]);
                        if ps@.len() > 0 {
                            assert(listed_before(dm, ps@[ps@.len() - 1] as int, q));
                        }
                        assert(false);
                    }
                }
                break;
            },
            Some(b) => {
                let ghost old_ps = ps@;
                ps.push(b);
                proof {
                    let psm = ps@.map_values(|x: usize| x as int);
                    let opsm = old_ps.map_values(|x: usize| x as int);
                    assert forall|q: int, i: int|
                        #![trigger ps@[i], pred(q)]
                        0 <= q < n && pred(q) && !psm.contains(q) && 0 <= i < ps@.len() implies listed_before(
                        dm,
                        ps@[i] as int,
                        q,
                    ) by {
                        if !opsm.contains(q) {
                            if old_ps.len() > 0 {
                                assert(listed_before(dm, old_ps[old_ps.len() - 1] as int, q));
                            }
                            if q == b {
                                assert(psm[old_ps.len() as int] == q);
                            }
                            if i < old_ps.len() {
                                assert(ps@[i] == old_ps[i]);
                            }
                        } else {
                            let k = choose|k: int| 0 <= k < opsm.len() && opsm[k] == q;
                            assert(psm[k] == q);
                        }
                    }
                    assert forall|i: int, j: int|
                        0 <= i < j < ps@.len() implies listed_before(dm, (#[trigger] ps@[i]) as int, (#[trigger] ps@[j]) as int) by {
                        if j == old_ps.len() && i < j {
                            assert(ps@[i] == old_ps[i]);
                            if i < old_ps.len() - 1 {
                                assert(listed_before(dm, old_ps[i] as int, old_ps[old_ps.len() - 1] as int));
                            }
                        } else {
                            assert(ps@[i] == old_ps[i] && ps@[j] == old_ps[j]);
                        }
                    }
                }
            },
        }
    }
    proof {
        let psm = ps@.map_values(|x: usize| x as int);
        assert forall|i: int| 0 <= i < psm.len() implies 0 <= #[trigger] psm[i] < dm.len() && pred(psm[i]) by {
            assert(psm[i] == ps@[i] as int);
        }
        assert forall|i: int, j: int| 0 <= i < j < psm.len() implies listed_before(dm, #[trigger] psm[i], #[trigger] psm[j]) by {
            assert(psm[i] == ps@[i] as int && psm[j] == ps@[j] as int);
        }
        assert forall|q: int|
            0 <= q < dm.len() && #[trigger] pred(q) && !psm.contains(q) implies psm.len() == limit && forall|i: int|
            0 <= i < psm.len() ==> listed_before(dm, #[trigger] psm[i], q) by {
            assert forall|i: int| 0 <= i < psm.len() implies listed_before(dm, #[trigger] psm[i], q) by {
                assert(psm[i] == ps@[i] as int);
            }
        }
    }
    ps
}

impl PageIndex {
    /// For each page, whether it holds a key that `w` expands to.
    fn word_hits(&self, w: &[char]) -> (m: Vec<bool>)
        requires
            self.wf(),
        ensures
            m@.len() == self.docs@.len(),
            forall|p: int|
                0 <= p < self.docs@.len() ==> m@[p] == matches_word(
                    keys_of(self.terms@),
                    doc_terms(self.docs@[p].1@),
                    w@,
                ),
    {
        let n = self.docs.len();
        let ghost ks = keys_of(self.terms@);
        let mut m: Vec<bool> = Vec::new();
        let mut p: usize = 0;
        while p < n
            invariant
                p <= n,
                n == self.docs@.len(),
                m@.len() == p,
                forall|q: int| 0 <= q < p ==> !m@[q],
            decreases n - p,
        {
            m.push(false);
            p = p + 1;
        }
        let mut count: usize = 0;
        let mut i: usize = 0;
        while i < self.terms.len()
            invariant
                self.wf(),
                n == self.docs@.len(),
                ks == keys_of(self.terms@),
                m@.len() == n,
                i <= self.terms@.len(),
                count == prefix_count(ks, w@, i as int),
                count <= i,
                forall|q: int| 0 <= q < n ==> m@[q] == marked(self.terms@, w@, i as int, self.docs@[q].0),
            decreases self.terms@.len() - i,
        {
            assert(ks[i as int] == self.terms@[i as int].0@);
            if prefix_of(self.terms[i].0.as_slice(), w) {
                if count < MAX_PREFIX_KEYS {
                    let posting = &self.terms[i].1;
                    let mut k: usize = 0;
                    while k < posting.len()
                        invariant
                            self.wf(),
                            n == self.docs@.len(),
                            ks == keys_of(self.terms@),
                            m@.len() == n,
                            i < self.terms@.len(),
                            *posting == self.terms@[i as int].1,
                            k <= posting@.len(),
                            expands_to(ks, w@, i as int),
                            forall|q: int|
                                0 <= q < n ==> m@[q] == (marked(self.terms@, w@, i as int, self.docs@[q].0)
                                    || posting@.take(k as int).contains(self.docs@[q].0)),
                        decreases posting@.len() - k,
                    {
                        let ghost m0 = m@;
                        let id = posting[k];
                        let ghost t1 = posting@.take(k + 1);
                        assert(t1 =~= posting@.take(k as int).push(id));
                        match find_doc(&self.docs, id) {
                            Some(q) => {
                                m.set(q, true);
                                assert forall|r: int|
                                    0 <= r < n implies m@[r] == (marked(self.terms@, w@, i as int, self.docs@[r].0)
                                    || t1.contains(self.docs@[r].0)) by {
                                    if r == q {
                                        assert(t1[k as int] == id);
                                    } else {
                                        assert(m@[r] == m0[r]);
                                        assert(self.docs@[r].0 != id);
                                        if t1.contains(self.docs@[r].0) {
                                            let z = choose|z: int| 0 <= z < t1.len() && t1[z] == self.docs@[r].0;
                                            assert(posting@.take(k as int)[z] == self.docs@[r].0);
                                        }
                                        if posting@.take(k as int).contains(self.docs@[r].0) {
                                            let z = choose|z: int|
                                                0 <= z < k && posting@.take(k as int)[z] == self.docs@[r].0;
                                            assert(t1[z] == self.docs@[r].0);
                                        }
                                    }
                                }
                            },
                            None => {
                                assert forall|r: int|
                                    0 <= r < n implies m@[r] == (marked(self.terms@, w@, i as int, self.docs@[r].0)
                                    || t1.contains(self.docs@[r].0)) by {
                                    assert(self.docs@[r].0 != id);
                                    if t1.contains(self.docs@[r].0) {
                                        let z = choose|z: int| 0 <= z < t1.len() && t1[z] == self.docs@[r].0;
                                        assert(posting@.take(k as int)[z] == self.docs@[r].0);
                                    }
                                    if posting@.take(k as int).contains(self.docs@[r].0) {
                                        let z = choose|z: int|
                                            0 <= z < k && posting@.take(k as int)[z] == self.docs@[r].0;
                                        assert(t1[z] == self.docs@[r].0);
                                    }
                                }
                            },
                        }
                        k = k + 1;
                    }
                    assert(posting@.take(posting@.len() as int) =~= posting@);
                }
                count = count + 1;
            }
            i = i + 1;
        }
        proof {
            assert forall|p: int|
                0 <= p < self.docs@.len() implies m@[p] == matches_word(
                ks,
                doc_terms(self.docs@[p].1@),
                w@,
            ) by {
                let id = self.docs@[p].0;
                lemma_marked(self.terms@, w@, self.terms@.len() as int, id);
                if m@[p] {
                    let j = choose|j: int|
                        0 <= j < self.terms@.len() && #[trigger] expands_to(ks, w@, j) && has(self.terms@, ks[j], id);
                    assert(doc_terms(self.docs@[p].1@).contains(ks[j]));
                }
                if matches_word(ks, doc_terms(self.docs@[p].1@), w@) {
                    let j = choose|j: int|
                        0 <= j < ks.len() && #[trigger] expands_to(ks, w@, j) && doc_terms(self.docs@[p].1@).contains(ks[j]);
                    assert(has(self.terms@, ks[j], id));
                }
            }
        }
        m
    }

    /// AND over every query word, each matched as a prefix of the vocabulary;
    /// most recent first.
    pub fn search(&self, query: &str, limit: usize) -> (r: Vec<Hit>)
        requires
            self.wf(),
        ensures
            search_result(self.docs_model(), self.keys(), query@, limit as nat, r@.map_values(|h: Hit| h@)),
    {
        let words = tokenize(query);
        let ghost ws = views(words@);
        if words.len() == 0 {
            let r: Vec<Hit> = Vec::new();
            assert(r@.map_values(|h: Hit| h@) =~= Seq::<HitModel>::empty());
            return r;
        }
        let ghost dm = self.docs_model();
        let ghost ks = self.keys();
        let n = self.docs.len();
        let mut matched: Vec<bool> = Vec::new();
        let mut p: usize = 0;
        while p < n
            invariant
                p <= n,
                n == self.docs@.len(),
                matched@.len() == p,
                forall|q: int| 0 <= q < p ==> matched@[q],
            decreases n - p,
        {
            matched.push(true);
            p = p + 1;
        }
        let mut j: usize = 0;
        while j < words.len()
            invariant
                self.wf(),
                n == self.docs@.len(),
                dm == docs_of(self.docs@),
                ks == keys_of(self.terms@),
                ws == views(words@),
                j <= words@.len(),
                matched@.len() == n,
                forall|q: int|
                    0 <= q < n ==> matched@[q] == (forall|z: int|
                        0 <= z < j ==> #[trigger] matches_word(ks, doc_terms(dm[q].1), ws[z])),
            decreases words@.len() - j,
        {
            let m = self.word_hits(words[j].as_slice());
            let ghost before = matched@;
            let mut next: Vec<bool> = Vec::new();
            let mut q: usize = 0;
            while q < n
                invariant
                    q <= n,
                    n == self.docs@.len(),
                    matched@ == before,
                    before.len() == n,
                    m@.len() == n,
                    next@.len() == q,
                    forall|r: int| 0 <= r < q ==> next@[r] == (before[r] && m@[r]),
                decreases n - q,
            {
                next.push(matched[q] && m[q]);
                q = q + 1;
            }
            matched = next;
            proof {
                assert(ws[j as int] == words@[j as int]@);
                assert forall|r: int|
                    0 <= r < n implies matched@[r] == (forall|z: int|
                        0 <= z < j + 1 ==> #[trigger] matches_word(ks, doc_terms(dm[r].1), ws[z])) by {
                    assert(dm[r].1 == self.docs@[r].1@);
                    assert(m@[r] == matches_word(ks, doc_terms(dm[r].1), ws[j as int]));
                    if matched@[r] {
                        assert forall|z: int| 0 <= z < j + 1 implies #[trigger] matches_word(
                            ks,
                            doc_terms(dm[r].1),
                            ws[z],
                        ) by {
                            if z < j {
                                assert(before[r]);
                            }
                        }
                    }
                    if forall|z: int| 0 <= z < j + 1 ==> #[trigger] matches_word(ks, doc_terms(dm[r].1), ws[z]) {
                        assert(matches_word(ks, doc_terms(dm[r].1), ws[j as int]));
                        assert forall|z: int| 0 <= z < j implies #[trigger] matches_word(
                            ks,
                            doc_terms(dm[r].1),
                            ws[z],
                        ) by {
                            assert(matches_word(ks, doc_terms(dm[r].1), ws[z]));
                        }
                        assert(before[r]);
                    }
                }
            }
            j = j + 1;
        }
        let ghost pred = query_matches(dm, ks, ws);
        assert forall|q: int| 0 <= q < self.docs@.len() implies matched@[q] == pred(q) by {
            assert(matched@[q] == (forall|z: int| 0 <= z < ws.len() ==> #[trigger] matches_word(ks, doc_terms(dm[q].1), ws[z])));
        }
        let ps = rank(&self.docs, &matched, limit, Ghost(pred));
        let ghost psm = ps@.map_values(|x: usize| x as int);
        assert forall|k: int| 0 <= k < ps@.len() implies (#[trigger] ps@[k]) < self.docs@.len() by {
            assert(psm[k] == ps@[k] as int);
        }
        let mut hits: Vec<Hit> = Vec::new();
        let mut i: usize = 0;
        while i < ps.len()
            invariant
                self.wf(),
                dm == docs_of(self.docs@),
                ws == views(words@),
                ws.len() > 0,
                psm == ps@.map_values(|x: usize| x as int),
                forall|k: int| 0 <= k < ps@.len() ==> (#[trigger] ps@[k]) < self.docs@.len(),
                i <= ps@.len(),
                hits@.map_values(|h: Hit| h@) == psm.take(i as int).map_values(|p: int| hit_of(dm[p].1, ws[0])),
            decreases ps@.len() - i,
        {
            let d = &self.docs[ps[i]].1;
            assert(psm[i as int] == ps@[i as int] as int);
            assert(ws[0] == words@[0]@);
            let h = Hit {
                title: d.title.clone(),
                url: d.url.clone(),
                visited_at: d.visited_at,
                snippet: snippet(d.text.as_str(), words[0].as_slice()),
            };
            let ghost h0 = hits@;
            hits.push(h);
            proof {
                assert(psm.take(i + 1) =~= psm.take(i as int).push(psm[i as int]));
                assert(hits@.map_values(|h: Hit| h@) =~= h0.map_values(|h: Hit| h@).push(h@));
            }
            i = i + 1;
        }
        proof {
            assert(psm.take(psm.len() as int) =~= psm);
            assert(ranked(dm, pred, limit as nat, psm));
        }
        hits
    }
}

// ─────────────────────────────────────────────────────────────────────
// Laws
// ─────────────────────────────────────────────────────────────────────

proof fn lemma_prefix_count_zero(keys: Seq<Seq<char>>, w: Seq<char>, n: int)
    requires
        0 <= n <= keys.len(),
        forall|j: int| 0 <= j < n ==> !starts_with(#[trigger] keys[j], w),
    ensures
        prefix_count(keys, w, n) == 0,
    decreases n,
{
    if n > 0 {
        lemma_prefix_count_zero(keys, w, n - 1);
    }
}

/// Every term of a page the index holds is in the vocabulary, and a query word
/// that is itself a term of the page expands to it.
proof fn lemma_own_word_matches(idx: &PageIndex, p: int, w: Seq<char>)
    requires
        idx.wf(),
        0 <= p < idx.docs@.len(),
        doc_terms(idx.docs@[p].1@).contains(w),
    ensures
        matches_word(idx.keys(), doc_terms(idx.docs@[p].1@), w),
{
    let ks = keys_of(idx.terms@);
    let id = idx.docs@[p].0;
    assert(has(idx.terms@, w, id));
    let i = choose|i: int| #![trigger idx.terms@[i]]
        0 <= i < idx.terms@.len() && idx.terms@[i].0@ == w && idx.terms@[i].1@.contains(id);
    assert(ks[i] == w);
    assert forall|j: int| 0 <= j < i implies !starts_with(#[trigger] ks[j], w) by {
        assert(lex_lt(ks[j], ks[i]));
        if starts_with(ks[j], w) {
            lemma_prefix_not_less(ks[j], w);
        }
    }
    lemma_prefix_count_zero(ks, w, i);
    assert(starts_with(w, w)) by {
        assert(w.take(w.len() as int) =~= w);
    }
    assert(expands_to(ks, w, i));
}

/// A page is found by its own words: when every word of a query is a term of
/// a page the index holds, and fewer pages than `limit` match, the page is
/// among the hits.
pub proof fn law_found_by_own_words(idx: &PageIndex, query: Seq<char>, limit: nat, hits: Seq<HitModel>, p: int)
    requires
        idx.wf(),
        0 <= p < idx.docs_model().len(),
        tokens(query).len() > 0,
        forall|j: int| 0 <= j < tokens(query).len() ==> doc_terms(idx.docs_model()[p].1).contains(#[trigger] tokens(query)[j]),
        search_result(idx.docs_model(), idx.keys(), query, limit, hits),
        hits.len() < limit,
    ensures
        exists|k: int| 0 <= k < hits.len() && hits[k] == hit_of(idx.docs_model()[p].1, tokens(query)[0]),
{
    let dm = idx.docs_model();
    let words = tokens(query);
    let pred = query_matches(dm, idx.keys(), words);
    assert(dm[p].1 == idx.docs@[p].1@);
    assert forall|j: int| 0 <= j < words.len() implies #[trigger] matches_word(idx.keys(), doc_terms(dm[p].1), words[j]) by {
        lemma_own_word_matches(idx, p, words[j]);
    }
    assert(pred(p));
    let ps = choose|ps: Seq<int>|
        ranked(dm, pred, limit, ps) && hits == ps.map_values(|q: int| hit_of(dm[q].1, words[0]));
    assert(ps.contains(p));
    let k = choose|k: int| 0 <= k < ps.len() && ps[k] == p;
    assert(hits[k] == hit_of(dm[p].1, words[0]));
}

/// Search lists at most `limit` hits, most recent first.
pub proof fn law_hits_most_recent_first(idx: &PageIndex, query: Seq<char>, limit: nat, hits: Seq<HitModel>)
    requires
        search_result(idx.docs_model(), idx.keys(), query, limit, hits),
    ensures
        hits.len() <= limit,
        forall|i: int, j: int| 0 <= i < j < hits.len() ==> hits[i].visited_at >= hits[j].visited_at,
{
    let dm = idx.docs_model();
    let words = tokens(query);
    if words.len() > 0 {
        let pred = query_matches(dm, idx.keys(), words);
        let ps = choose|ps: Seq<int>|
            ranked(dm, pred, limit, ps) && hits == ps.map_values(|q: int| hit_of(dm[q].1, words[0]));
        assert forall|i: int, j: int| 0 <= i < j < hits.len() implies hits[i].visited_at >= hits[j].visited_at by {
            assert(listed_before(dm, ps[i], ps[j]));
        }
    }
}

/// Re-indexing a page replaces it: afterwards the new copy is the only page
/// with that URL (up to trailing slashes).
pub proof fn law_reindex_replaces(
    old_docs: Seq<(u64, DocModel)>,
    old_keys: Seq<Seq<char>>,
    old_next: nat,
    new_docs: Seq<(u64, DocModel)>,
    new_keys: Seq<Seq<char>>,
    new_next: nat,
    url: Seq<char>,
    title: Seq<char>,
    text: Seq<char>,
    max_docs: nat,
    now: u64,
)
    requires
        indexed(old_docs, old_keys, old_next, new_docs, new_keys, new_next, url, title, text, max_docs, now),
        collapse_ws_spec(text).len() > 0,
        max_docs >= 1,
    ensures
        new_docs.len() > 0,
        new_docs.last().1.url == url,
        forall|p: int| 0 <= p < new_docs.len() - 1 ==> !same_page(#[trigger] new_docs[p].1.url, url),
{
    let f = old_docs.filter(other_pages(url));
    let r = make_room(f, max_docs);
    assert forall|p: int| 0 <= p < new_docs.len() - 1 implies !same_page(#[trigger] new_docs[p].1.url, url) by {
        assert(new_docs[p] == r[p]);
        let q: int = if f.len() >= max_docs { p + f.len() - max_docs + 1 } else { p };
        assert(0 <= q < f.len());
        assert(r[p] == f[q]);
        broadcast use vstd::seq_lib::group_filter_ensures;
        assert((other_pages(url))(f[q]));
    }
}

/// The index never holds more than `max_docs` pages after indexing one when it
/// held no more before.
pub proof fn law_cap_holds(
    old_docs: Seq<(u64, DocModel)>,
    old_keys: Seq<Seq<char>>,
    old_next: nat,
    new_docs: Seq<(u64, DocModel)>,
    new_keys: Seq<Seq<char>>,
    new_next: nat,
    url: Seq<char>,
    title: Seq<char>,
    text: Seq<char>,
    max_docs: nat,
    now: u64,
)
    requires
        indexed(old_docs, old_keys, old_next, new_docs, new_keys, new_next, url, title, text, max_docs, now),
        max_docs >= 1,
        old_docs.len() <= max_docs,
    ensures
        new_docs.len() <= max_docs,
{
    old_docs.lemma_filter_len(other_pages(url));
}


/// Some term of the page starts with `w`.
pub open spec fn has_term_with_prefix(d: DocModel, w: Seq<char>) -> bool {
    exists|t: Seq<char>| #[trigger] doc_terms(d).contains(t) && starts_with(t, w)
}

/// Search hits are pages the index holds, each at most once, and each holds,
/// for every word of the query, a term that starts with that word; a query
/// without words finds nothing.
pub proof fn law_hits_are_matching_pages(idx: &PageIndex, query: Seq<char>, limit: nat, hits: Seq<HitModel>)
    requires
        search_result(idx.docs_model(), idx.keys(), query, limit, hits),
    ensures
        tokens(query).len() == 0 ==> hits.len() == 0,
        tokens(query).len() > 0 ==> exists|ps: Seq<int>|
            {
                &&& ps.len() == hits.len()
                &&& forall|i: int| 0 <= i < ps.len() ==> 0 <= #[trigger] ps[i] < idx.docs_model().len()
                    && hits[i] == hit_of(idx.docs_model()[ps[i]].1, tokens(query)[0])
                &&& forall|i: int, j: int| 0 <= i < j < ps.len() ==> #[trigger] ps[i] != #[trigger] ps[j]
                &&& forall|i: int, j: int|
                    0 <= i < ps.len() && 0 <= j < tokens(query).len() ==> has_term_with_prefix(
                        idx.docs_model()[#[trigger] ps[i]].1,
                        #[trigger] tokens(query)[j],
                    )
            },
{
    let dm = idx.docs_model();
    let ks = idx.keys();
    let words = tokens(query);
    if words.len() > 0 {
        let pred = query_matches(dm, ks, words);
        let ps = choose|ps: Seq<int>|
            ranked(dm, pred, limit, ps) && hits == ps.map_values(|q: int| hit_of(dm[q].1, words[0]));
        assert forall|i: int, j: int| 0 <= i < j < ps.len() implies #[trigger] ps[i] != #[trigger] ps[j] by {
            assert(listed_before(dm, ps[i], ps[j]));
        }
        assert forall|i: int, j: int|
            0 <= i < ps.len() && 0 <= j < words.len() implies has_term_with_prefix(dm[#[trigger] ps[i]].1, #[trigger] words[j]) by {
            assert(pred(ps[i]));
            assert(matches_word(ks, doc_terms(dm[ps[i]].1), words[j]));
            let k = choose|k: int| 0 <= k < ks.len() && #[trigger] expands_to(ks, words[j], k) && doc_terms(dm[ps[i]].1).contains(ks[k]);
            assert(doc_terms(dm[ps[i]].1).contains(ks[k]) && starts_with(ks[k], words[j]));
        }
        assert forall|i: int| 0 <= i < ps.len() implies 0 <= #[trigger] ps[i] < dm.len() && hits[i] == hit_of(dm[ps[i]].1, words[0]) by {
        }
    }
}

proof fn lemma_blank_runs(s: Seq<char>)
    requires
        forall|i: int| 0 <= i < s.len() ==> is_whitespace(#[trigger] s[i]),
    ensures
        crate::text::runs_scan(s, space_sep(), 1) == (Seq::<Seq<char>>::empty(), Seq::<char>::empty()),
    decreases s.len(),
{
    if s.len() > 0 {
        lemma_blank_runs(s.drop_last());
        assert((space_sep())(s.last()));
    }
}

/// Indexing text that is nothing but whitespace leaves the index as it was:
/// the same pages, vocabulary and next id, so every search answers as before.
pub proof fn law_blank_text_changes_nothing(
    old_docs: Seq<(u64, DocModel)>,
    old_keys: Seq<Seq<char>>,
    old_next: nat,
    new_docs: Seq<(u64, DocModel)>,
    new_keys: Seq<Seq<char>>,
    new_next: nat,
    url: Seq<char>,
    title: Seq<char>,
    text: Seq<char>,
    max_docs: nat,
    now: u64,
)
    requires
        indexed(old_docs, old_keys, old_next, new_docs, new_keys, new_next, url, title, text, max_docs, now),
        forall|i: int| 0 <= i < text.len() ==> is_whitespace(#[trigger] text[i]),
    ensures
        new_docs == old_docs,
        new_keys == old_keys,
        new_next == old_next,
        forall|q: Seq<char>, l: nat, hits: Seq<HitModel>|
            #[trigger] search_result(new_docs, new_keys, q, l, hits) == search_result(old_docs, old_keys, q, l, hits),
{
    lemma_blank_runs(text);
    assert(runs(text, space_sep(), 1) =~= Seq::<Seq<char>>::empty());
    assert(collapse_ws_spec(text).len() == 0);
}

/// No two pages are under the same URL (up to trailing slashes).
pub open spec fn distinct_pages(docs: Seq<(u64, DocModel)>) -> bool {
    forall|p: int, q: int| 0 <= p < q < docs.len() ==> !same_page(#[trigger] docs[p].1.url, #[trigger] docs[q].1.url)
}

/// The shape every index keeps: at most `max_docs` pages, each under its own
/// URL, each with text that is neither empty nor over `MAX_TEXT` bytes.
pub open spec fn index_inv(docs: Seq<(u64, DocModel)>, max_docs: nat) -> bool {
    &&& docs.len() <= max_docs
    &&& distinct_pages(docs)
    &&& forall|p: int| 0 <= p < docs.len() ==> (#[trigger] docs[p]).1.text.len() > 0 && utf8_len(docs[p].1.text) <= MAX_TEXT
}

proof fn lemma_filter_other_pages(s: Seq<(u64, DocModel)>, url: Seq<char>)
    requires
        distinct_pages(s),
    ensures
        distinct_pages(s.filter(other_pages(url))),
        forall|i: int| 0 <= i < s.filter(other_pages(url)).len() ==> s.contains(#[trigger] s.filter(other_pages(url))[i])
            && !same_page(s.filter(other_pages(url))[i].1.url, url),
    decreases s.len(),
{
    reveal_with_fuel(Seq::filter, 1);
    if s.len() > 0 {
        let t = s.drop_last();
        assert(distinct_pages(t)) by {
            assert forall|p: int, q: int| 0 <= p < q < t.len() implies !same_page(#[trigger] t[p].1.url, #[trigger] t[q].1.url) by {
                assert(t[p] == s[p] && t[q] == s[q]);
            }
        }
        lemma_filter_other_pages(t, url);
        let ft = t.filter(other_pages(url));
        let f = s.filter(other_pages(url));
        assert forall|i: int| 0 <= i < ft.len() implies s.contains(#[trigger] ft[i]) by {
            let k = choose|k: int| 0 <= k < t.len() && t[k] == ft[i];
            assert(s[k] == t[k]);
        }
        if (other_pages(url))(s.last()) {
            assert(f == ft.push(s.last()));
            assert forall|p: int, q: int| 0 <= p < q < f.len() implies !same_page(#[trigger] f[p].1.url, #[trigger] f[q].1.url) by {
                if q == f.len() - 1 {
                    let k = choose|k: int| 0 <= k < t.len() && t[k] == ft[p];
                    assert(s[k] == ft[p]);
                    assert(f[p] == ft[p]);
                    assert(!same_page(s[k].1.url, s[s.len() - 1].1.url));
                } else {
                    assert(f[p] == ft[p] && f[q] == ft[q]);
                }
            }
            assert forall|i: int| 0 <= i < f.len() implies s.contains(#[trigger] f[i]) && !same_page(f[i].1.url, url) by {
                if i < ft.len() {
                    assert(f[i] == ft[i]);
                } else {
                    assert(f[i] == s[s.len() - 1]);
                }
            }
        } else {
            assert(f == ft);
        }
    }
}

/// Indexing keeps the index's shape (`index_inv`), and a page indexed with
/// text that is not blank is held afterwards, last, under its URL, with its
/// text collapsed and cut at a character boundary to at most `MAX_TEXT`
/// bytes. The empty index has that shape.
pub proof fn law_index_keeps_shape(
    old_docs: Seq<(u64, DocModel)>,
    old_keys: Seq<Seq<char>>,
    old_next: nat,
    new_docs: Seq<(u64, DocModel)>,
    new_keys: Seq<Seq<char>>,
    new_next: nat,
    url: Seq<char>,
    title: Seq<char>,
    text: Seq<char>,
    max_docs: nat,
    now: u64,
)
    requires
        indexed(old_docs, old_keys, old_next, new_docs, new_keys, new_next, url, title, text, max_docs, now),
        max_docs >= 1,
        index_inv(old_docs, max_docs),
    ensures
        index_inv(Seq::<(u64, DocModel)>::empty(), max_docs),
        index_inv(new_docs, max_docs),
        collapse_ws_spec(text).len() > 0 ==> {
            &&& new_docs.len() > 0
            &&& new_docs.last().1.url == url
            &&& new_docs.last().1.text == collapse_ws_spec(text).take(new_docs.last().1.text.len() as int)
            &&& new_docs.last().1.text == clip_text(collapse_ws_spec(text))
        },
{
    let c = collapse_ws_spec(text);
    if c.len() > 0 {
        let f = old_docs.filter(other_pages(url));
        lemma_filter_other_pages(old_docs, url);
        old_docs.lemma_filter_len(other_pages(url));
        let r = make_room(f, max_docs);
        let off: int = if f.len() >= max_docs { f.len() - max_docs + 1 } else { 0 };
        assert forall|p: int| 0 <= p < r.len() implies #[trigger] r[p] == f[p + off] by {}
        let d = DocModel { url, title, visited_at: now, text: clip_text(c) };
        assert(new_docs == r.push((old_next as u64, d)));
        // the new page's text
        lemma_fit_chars(c, MAX_TEXT as int);
        assert(char_width(c[0]) <= 4);
        assert(fit_chars(c, MAX_TEXT as int) >= 1);
        assert(d.text.len() > 0);
        assert forall|p: int, q: int| 0 <= p < q < new_docs.len() implies !same_page(#[trigger] new_docs[p].1.url, #[trigger] new_docs[q].1.url) by {
            assert(new_docs[p] == f[p + off]);
            if q == new_docs.len() - 1 {
                assert(!same_page(f[p + off].1.url, url));
            } else {
                assert(new_docs[q] == f[q + off]);
            }
        }
        assert forall|p: int| 0 <= p < new_docs.len() implies (#[trigger] new_docs[p]).1.text.len() > 0 && utf8_len(new_docs[p].1.text) <= MAX_TEXT by {
            if p < new_docs.len() - 1 {
                assert(new_docs[p] == f[p + off]);
                assert(old_docs.contains(f[p + off]));
                let k = choose|k: int| 0 <= k < old_docs.len() && old_docs[k] == f[p + off];
                assert(old_docs[k].1.text.len() > 0);
            }
        }
    }
}


/// The snippet window is placed by the first case-insensitive occurrence of
/// the word: when the lowercased text first holds `w` at character `j`, the
/// window starts `SNIPPET_CHARS / 3` bytes before that occurrence's byte
/// offset (or at the start, when the occurrence is nearer than that); when the
/// lowercased text does not hold `w`, the window starts at the text's start.
pub proof fn law_snippet_window_at_first_match(text: Seq<char>, w: Seq<char>, j: int)
    ensures
        crate::text::occurs_at(lowercase(text), w, j) && (forall|k: int|
            0 <= k < j ==> !crate::text::occurs_at(lowercase(text), w, k)) ==> snippet_start(text, w) == if utf8_len(
            lowercase(text).take(j),
        ) >= 46 {
            utf8_len(lowercase(text).take(j)) - 46
        } else {
            0
        },
        !crate::text::contains_seq(lowercase(text), w) ==> snippet_start(text, w) == 0,
{
    let lower = lowercase(text);
    lemma_find_seq(lower, w);
    if crate::text::occurs_at(lower, w, j) && (forall|k: int| 0 <= k < j ==> !crate::text::occurs_at(lower, w, k)) {
        match find_seq(lower, w) {
            Some(k) => {
                if k < j {
                    assert(!crate::text::occurs_at(lower, w, k));
                } else if k > j {
                    assert(!crate::text::occurs_at(lower, w, j));
                }
            },
            None => {
                assert(crate::text::contains_seq(lower, w));
            },
        }
    }
}


/// `k` characters are the most of `s` whose UTF-8 encoding fits in `b` bytes:
/// `k` is the character boundary at or before byte `b`.
pub open spec fn floor_boundary(s: Seq<char>, b: int, k: int) -> bool {
    &&& 0 <= k <= s.len()
    &&& utf8_len(s.take(k)) <= b
    &&& k < s.len() ==> utf8_len(s.take(k + 1)) > b
}

proof fn lemma_floor_boundary(s: Seq<char>, b: int)
    requires
        b >= 0,
    ensures
        floor_boundary(s, b, fit_chars(s, b) as int),
{
    lemma_fit_chars(s, b);
    if fit_chars(s, b) == 0 {
        assert(s.take(0) =~= Seq::<char>::empty());
    }
}

/// A snippet shows the text between the character boundaries at or before
/// its window's start and at or before 140 bytes (`SNIPPET_CHARS`) later (or the
/// text's end), trimmed, with `…` where it cuts the text at either end.
pub proof fn law_snippet_is_window(text: Seq<char>, w: Seq<char>)
    ensures
        exists|ks: int, ke: int|
            #![trigger floor_boundary(text, snippet_start(text, w), ks), text.take(ke)]
            {
                let sb = utf8_len(text.take(ks));
                let eb = utf8_len(text.take(ke));
                let total = utf8_len(text);
                &&& floor_boundary(text, snippet_start(text, w), ks)
                &&& floor_boundary(text, if sb + 140 < total { sb + 140int } else { total as int }, ke)
                &&& ks <= ke
                &&& snippet_spec(text, w) == (if sb > 0 { "…"@ } else { Seq::empty() }) + trim(text.subrange(ks, ke))
                    + (if eb < total { "…"@ } else { Seq::empty() })
            },
{
    let st = snippet_start(text, w);
    assert(st >= 0);
    lemma_floor_boundary(text, st);
    let ks = fit_chars(text, st) as int;
    let sb = utf8_len(text.take(ks));
    let total = utf8_len(text);
    let bound: int = if sb + 140 < total { sb + 140int } else { total as int };
    lemma_floor_boundary(text, bound);
    let ke = fit_chars(text, bound) as int;
    crate::text::lemma_utf8_len_concat(text.take(ks), text.skip(ks));
    assert(text.take(ks) + text.skip(ks) =~= text);
    lemma_fit_chars_mono(text, ks, bound);
    assert(text.take(text.len() as int) =~= text);
}

} // verus!
