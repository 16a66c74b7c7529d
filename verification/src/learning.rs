//! The context handed to the background learning agent: the open tabs, the
//! recent history and the active page's text, within a byte budget, with
//! secrets scrubbed and sensitive pages left out.

use vstd::prelude::*;
use crate::browser::{HistoryEntry, Tab};
use crate::page_index::utf8_prefix_capped;
use crate::sanitize::{
    is_sensitive_page, is_sensitive_page_spec, sanitize_text, sanitize_text_spec, sanitize_url,
    sanitize_url_spec,
};
use crate::text::{
    char_width, char_width_exec, chars_of, extend_chars, is_digit, lemma_utf8_len_bounds,
    lemma_utf8_len_take, string_of, trim, trim_chars, utf8_len,
};

verus! {

/// The whole prompt, in bytes (about 4K tokens).
pub const BUDGET: usize = 16_000;

/// Bytes kept for the active page's text.
pub const CONTENT_BUDGET: usize = 4_000;

/// Open-tab lines stop before the prompt passes this many bytes.
pub const TAB_LIMIT: usize = 10_000;

/// History lines stop before the prompt passes this many bytes.
pub const HISTORY_LIMIT: usize = 11_800;

/// `char::is_control`: the general category `Cc`.
pub open spec fn is_control(c: char) -> bool {
    c <= '\u{1f}' || ('\u{7f}' <= c && c <= '\u{9f}')
}

pub fn is_control_exec(c: char) -> (r: bool)
    ensures
        r == is_control(c),
{
    c <= '\u{1f}' || ('\u{7f}' <= c && c <= '\u{9f}')
}

/// One open-tab line: title, a star on the active tab, and the scrubbed URL.
pub open spec fn tab_line(t: Tab, active: usize) -> Seq<char> {
    "- "@ + t.title@ + (if t.id == active { " *"@ } else { Seq::empty() }) + " | "@ + sanitize_url_spec(
        t.url@,
    ) + "\n"@
}

/// Tab lines from tab `i` on appended to `out`, stopping at the first line
/// that would take the prompt past `TAB_LIMIT` bytes.
pub open spec fn tab_section(tabs: Seq<Tab>, active: usize, out: Seq<char>, i: int) -> Seq<char>
    decreases tabs.len() - i,
{
    if i < 0 || i >= tabs.len() {
        out
    } else {
        let line = tab_line(tabs[i], active);
        if utf8_len(out) + utf8_len(line) > TAB_LIMIT {
            out
        } else {
            tab_section(tabs, active, out + line, i + 1)
        }
    }
}

/// Some open tab shows exactly this URL.
pub open spec fn is_tab_url(tabs: Seq<Tab>, u: Seq<char>) -> bool {
    exists|k: int| 0 <= k < tabs.len() && (#[trigger] tabs[k]).url@ == u
}

/// One history line: title and scrubbed URL.
pub open spec fn history_line(e: HistoryEntry) -> Seq<char> {
    "- "@ + e.title@ + " | "@ + sanitize_url_spec(e.url@) + "\n"@
}

/// History lines, most recent first (the `j`-th entry examined is
/// `hist[hist.len() - 1 - j]`), skipping URLs already open in a tab; the
/// first line that would pass `HISTORY_LIMIT` bytes is replaced by `- ...`
/// and ends the section.
pub open spec fn history_section(tabs: Seq<Tab>, hist: Seq<HistoryEntry>, out: Seq<char>, j: int) -> Seq<char>
    decreases hist.len() - j,
{
    if j < 0 || j >= hist.len() {
        out
    } else {
        let e = hist[hist.len() - 1 - j];
        if is_tab_url(tabs, e.url@) {
            history_section(tabs, hist, out, j + 1)
        } else {
            let line = history_line(e);
            if utf8_len(out) + utf8_len(line) > HISTORY_LIMIT {
                out + "- ...\n"@
            } else {
                history_section(tabs, hist, out + line, j + 1)
            }
        }
    }
}

/// The newline counter after one more newline (it wraps like a `u8`).
pub open spec fn next_count(p: u8) -> u8 {
    if p == 255 { 0 } else { (p + 1) as u8 }
}

/// The page text with runs of newlines cut to two, ending as soon as it
/// reaches `CONTENT_BUDGET` bytes.
pub open spec fn squeeze(s: Seq<char>, i: int, acc: Seq<char>, prev: u8) -> Seq<char>
    decreases s.len() - i,
{
    if i < 0 || i >= s.len() {
        acc
    } else {
        let c = s[i];
        let p = if c == '\n' { next_count(prev) } else { 0u8 };
        let acc2 = if c != '\n' || p <= 2 { acc.push(c) } else { acc };
        if utf8_len(acc2) >= CONTENT_BUDGET {
            acc2
        } else {
            squeeze(s, i + 1, acc2, p)
        }
    }
}

pub open spec fn kept_char() -> spec_fn(char) -> bool {
    |c: char| !is_control(c) || c == '\n'
}

/// The active page's text as the prompt shows it: control characters but
/// newlines dropped, newline runs cut to two, clipped to the budget, trimmed
/// and with card numbers redacted.
pub open spec fn page_text_part(text: Seq<char>) -> Seq<char> {
    sanitize_text_spec(trim(squeeze(text.filter(kept_char()), 0, Seq::empty(), 0)))
}

/// The URL of the first tab with this id, or the empty string.
pub open spec fn tab_url_of(tabs: Seq<Tab>, id: usize, i: int) -> Seq<char>
    decreases tabs.len() - i,
{
    if i < 0 || i >= tabs.len() {
        Seq::empty()
    } else if tabs[i].id == id {
        tabs[i].url@
    } else {
        tab_url_of(tabs, id, i + 1)
    }
}

pub open spec fn tabs_part(tabs: Seq<Tab>, active: usize) -> Seq<char> {
    if tabs.len() > 0 {
        tab_section(tabs, active, "Open tabs:\n"@, 0) + "\n"@
    } else {
        Seq::empty()
    }
}

pub open spec fn history_part(tabs: Seq<Tab>, hist: Seq<HistoryEntry>, before: Seq<char>) -> Seq<char> {
    if hist.len() > 0 {
        history_section(tabs, hist, before + "Recent history:\n"@, 0) + "\n"@
    } else {
        before
    }
}

/// The learning prompt: nothing when there are neither tabs nor history;
/// otherwise the open tabs, the recent history and, unless the active tab
/// is on a sensitive page, its text (a notice stands in for it there).
pub open spec fn learning_prompt(tabs: Seq<Tab>, hist: Seq<HistoryEntry>, active: usize, text: Seq<char>) -> Option<Seq<char>> {
    if tabs.len() == 0 && hist.len() == 0 {
        None
    } else {
        let sensitive = is_sensitive_page_spec(tab_url_of(tabs, active, 0));
        let b = history_part(tabs, hist, tabs_part(tabs, active));
        if text.len() > 0 && !sensitive {
            Some(b + "Active page text:\n"@ + page_text_part(text) + "\n"@)
        } else if sensitive {
            Some(b + "Active page: [sensitive page — content omitted]\n"@)
        } else {
            Some(b)
        }
    }
}

/// Appends `piece`, keeping `len` the byte length of `out`.
fn push_tracked(out: &mut Vec<char>, len: &mut usize, piece: &[char])
    requires
        *old(len) == utf8_len(old(out)@),
        *old(len) + 4 * piece@.len() <= usize::MAX,
    ensures
        final(out)@ == old(out)@ + piece@,
        *final(len) == utf8_len(final(out)@),
        *final(len) == *old(len) + utf8_len(piece@),
        *final(len) <= *old(len) + 4 * piece@.len(),
{
    let ghost o = out@;
    let mut i: usize = 0;
    while i < piece.len()
        invariant
            i <= piece@.len(),
            out@ == o + piece@.take(i as int),
            *len == utf8_len(out@),
            *len <= *old(len) + 4 * i,
            *old(len) + 4 * piece@.len() <= usize::MAX,
        decreases piece@.len() - i,
    {
        proof {
            lemma_utf8_len_take(out@.push(piece@[i as int]), out@.len() as int);
            assert(out@.push(piece@[i as int]).take(out@.len() as int) =~= out@);
            assert(out@.push(piece@[i as int]).take(out@.len() + 1int) =~= out@.push(piece@[i as int]));
        }
        let w = char_width_exec(piece[i]);
        out.push(piece[i]);
        *len = *len + w;
        i = i + 1;
        assert(out@ =~= o + piece@.take(i as int));
    }
    assert(piece@.take(piece@.len() as int) =~= piece@);
    proof { crate::text::lemma_utf8_len_concat(o, piece@); }
}

/// The byte length of `s` when it is at most `cap`, else `cap + 1`.
fn bytes_up_to(s: &[char], cap: usize) -> (r: usize)
    requires
        cap < 1_000_000,
    ensures
        r == if utf8_len(s@) <= cap { utf8_len(s@) } else { cap as nat + 1 },
{
    let r = utf8_prefix_capped(s, s.len(), cap + 1);
    assert(s@.take(s@.len() as int) =~= s@);
    if r > cap {
        cap + 1
    } else {
        r
    }
}

fn lit(s: &str) -> (r: Vec<char>)
    ensures
        r@ == s@,
{
    chars_of(s)
}

fn tab_line_exec(t: &Tab, active: usize) -> (r: Vec<char>)
    ensures
        r@ == tab_line(*t, active),
{
    let mut line = lit("- ");
    extend_chars(&mut line, chars_of(t.title.as_str()).as_slice());
    if t.id == active {
        extend_chars(&mut line, lit(" *").as_slice());
    }
    extend_chars(&mut line, lit(" | ").as_slice());
    let su = sanitize_url(t.url.as_str());
    extend_chars(&mut line, chars_of(su.as_str()).as_slice());
    extend_chars(&mut line, lit("\n").as_slice());
    assert(line@ =~= tab_line(*t, active));
    line
}

fn history_line_exec(e: &HistoryEntry) -> (r: Vec<char>)
    ensures
        r@ == history_line(*e),
{
    let mut line = lit("- ");
    extend_chars(&mut line, chars_of(e.title.as_str()).as_slice());
    extend_chars(&mut line, lit(" | ").as_slice());
    let su = sanitize_url(e.url.as_str());
    extend_chars(&mut line, chars_of(su.as_str()).as_slice());
    extend_chars(&mut line, lit("\n").as_slice());
    assert(line@ =~= history_line(*e));
    line
}

fn is_tab_url_exec(tabs: &[Tab], u: &[char]) -> (r: bool)
    ensures
        r == is_tab_url(tabs@, u@),
{
    let mut k: usize = 0;
    while k < tabs.len()
        invariant
            k <= tabs@.len(),
            forall|q: int| 0 <= q < k ==> (#[trigger] tabs@[q]).url@ != u@,
        decreases tabs@.len() - k,
    {
        let tu = chars_of(tabs[k].url.as_str());
        if crate::json::chars_equal(tu.as_slice(), u) {
            assert(tabs@[k as int].url@ == u@);
            return true;
        }
        k = k + 1;
    }
    false
}

fn tab_url_of_exec(tabs: &[Tab], id: usize) -> (r: Vec<char>)
    ensures
        r@ == tab_url_of(tabs@, id, 0),
{
    let mut i: usize = 0;
    while i < tabs.len()
        invariant
            i <= tabs@.len(),
            tab_url_of(tabs@, id, 0) == tab_url_of(tabs@, id, i as int),
        decreases tabs@.len() - i,
    {
        if tabs[i].id == id {
            return chars_of(tabs[i].url.as_str());
        }
        i = i + 1;
    }
    Vec::new()
}

/// The active page's text part (see `page_text_part`).
fn page_text_exec(text: &str) -> (r: Vec<char>)
    ensures
        r@ == page_text_part(text@),
{
    let tc = chars_of(text);
    let mut cleaned: Vec<char> = Vec::new();
    let mut i: usize = 0;
    while i < tc.len()
        invariant
            i <= tc@.len(),
            cleaned@ == tc@.take(i as int).filter(kept_char()),
        decreases tc@.len() - i,
    {
        let c = tc[i];
        proof {
            assert(tc@.take(i + 1) =~= tc@.take(i as int).push(c));
            tc@.take(i as int).lemma_filter_push(c, kept_char());
        }
        if !is_control_exec(c) || c == '\n' {
            cleaned.push(c);
        }
        i = i + 1;
    }
    assert(tc@.take(tc@.len() as int) =~= tc@);
    let mut acc: Vec<char> = Vec::new();
    let mut acc_len: usize = 0;
    let mut prev: u8 = 0;
    let mut k: usize = 0;
    let mut stop = false;
    while !stop && k < cleaned.len()
        invariant
            k <= cleaned@.len(),
            acc_len == utf8_len(acc@),
            acc_len < CONTENT_BUDGET || stop,
            acc_len < CONTENT_BUDGET + 4,
            squeeze(cleaned@, 0, Seq::empty(), 0) == if stop {
                acc@
            } else {
                squeeze(cleaned@, k as int, acc@, prev)
            },
        decreases cleaned@.len() - k, if stop { 0int } else { 1int },
    {
        let c = cleaned[k];
        let p: u8 = if c == '\n' {
            if prev == 255 {
                0
            } else {
                prev + 1
            }
        } else {
            0
        };
        if c != '\n' || p <= 2 {
            proof {
                lemma_utf8_len_take(acc@.push(c), acc@.len() as int);
                assert(acc@.push(c).take(acc@.len() as int) =~= acc@);
                assert(acc@.push(c).take(acc@.len() + 1int) =~= acc@.push(c));
            }
            acc_len = acc_len + char_width_exec(c);
            acc.push(c);
        }
        if acc_len >= CONTENT_BUDGET {
            stop = true;
        } else {
            prev = p;
            k = k + 1;
        }
    }
    let trimmed = trim_chars(acc.as_slice());
    let s = sanitize_text(string_of(trimmed.as_slice()).as_str());
    chars_of(s.as_str())
}

/// The learning prompt for the open tabs, the history (oldest first), the
/// active tab and its page text; `None` when there are neither tabs nor
/// history.
pub fn build_learning_prompt(tabs: &[Tab], history: &[HistoryEntry], active_wv_id: usize, active_tab_text: &str) -> (r: Option<String>)
    ensures
        (match r {
            Some(s) => Some(s@),
            None => None::<Seq<char>>,
        }) == learning_prompt(tabs@, history@, active_wv_id, active_tab_text@),
{
    if tabs.len() == 0 && history.len() == 0 {
        return None;
    }
    let au = tab_url_of_exec(tabs, active_wv_id);
    let sensitive = is_sensitive_page(string_of(au.as_slice()).as_str());
    let mut out: Vec<char> = Vec::new();
    let mut out_len: usize = 0;
    proof {
        reveal_strlit("Open tabs:\n");
        reveal_strlit("Recent history:\n");
        reveal_strlit("- ...\n");
        reveal_strlit("\n");
    }
    if tabs.len() > 0 {
        let head = lit("Open tabs:\n");
        push_tracked(&mut out, &mut out_len, head.as_slice());
        let ghost start = out@;
        let mut i: usize = 0;
        let mut stop = false;
        while !stop && i < tabs.len()
            invariant
                start == "Open tabs:\n"@,
                i <= tabs@.len(),
                out_len == utf8_len(out@),
                out_len <= TAB_LIMIT,
                tab_section(tabs@, active_wv_id, start, 0) == if stop {
                    out@
                } else {
                    tab_section(tabs@, active_wv_id, out@, i as int)
                },
            decreases tabs@.len() - i, if stop { 0int } else { 1int },
        {
            let t = &tabs[i];
            let line = tab_line_exec(t, active_wv_id);
            let ll = bytes_up_to(line.as_slice(), TAB_LIMIT);
            if out_len + ll > TAB_LIMIT {
                stop = true;
            } else {
                proof {
                    lemma_utf8_len_bounds(line@);
                }
                push_tracked(&mut out, &mut out_len, line.as_slice());
                i = i + 1;
            }
        }
        let nl = lit("\n");
        push_tracked(&mut out, &mut out_len, nl.as_slice());
    }
    assert(out@ == tabs_part(tabs@, active_wv_id));
    if history.len() > 0 {
        let head = lit("Recent history:\n");
        push_tracked(&mut out, &mut out_len, head.as_slice());
        let ghost start = out@;
        let n = history.len();
        let mut j: usize = 0;
        let mut stop = false;
        while !stop && j < n
            invariant
                n == history@.len(),
                start == tabs_part(tabs@, active_wv_id) + "Recent history:\n"@,
                j <= n,
                out_len == utf8_len(out@),
                out_len <= HISTORY_LIMIT + 24,
                !stop ==> out_len <= HISTORY_LIMIT,
                history_section(tabs@, history@, start, 0) == if stop {
                    out@
                } else {
                    history_section(tabs@, history@, out@, j as int)
                },
            decreases n - j, if stop { 0int } else { 1int },
        {
            let e = &history[n - 1 - j];
            let uc = chars_of(e.url.as_str());
            if is_tab_url_exec(tabs, uc.as_slice()) {
                j = j + 1;
            } else {
                let line = history_line_exec(e);
                let ll = bytes_up_to(line.as_slice(), HISTORY_LIMIT);
                if out_len + ll > HISTORY_LIMIT {
                    proof {
                        reveal_strlit("- ...\n");
                    }
                    let more = lit("- ...\n");
                    push_tracked(&mut out, &mut out_len, more.as_slice());
                    stop = true;
                } else {
                    proof {
                        lemma_utf8_len_bounds(line@);
                    }
                    push_tracked(&mut out, &mut out_len, line.as_slice());
                    j = j + 1;
                }
            }
        }
        let nl = lit("\n");
        push_tracked(&mut out, &mut out_len, nl.as_slice());
    }
    let ghost b = out@;
    assert(b == history_part(tabs@, history@, tabs_part(tabs@, active_wv_id)));
    if !active_tab_text.is_empty() && !sensitive {
        extend_chars(&mut out, lit("Active page text:\n").as_slice());
        let part = page_text_exec(active_tab_text);
        extend_chars(&mut out, part.as_slice());
        extend_chars(&mut out, lit("\n").as_slice());
    } else if sensitive {
        extend_chars(&mut out, lit("Active page: [sensitive page — content omitted]\n").as_slice());
    }
    assert(out@ =~= learning_prompt(tabs@, history@, active_wv_id, active_tab_text@).unwrap());
    Some(string_of(out.as_slice()))
}

/// On a sensitive page the page's text has no part in the prompt: any two
/// texts give the same prompt.
pub proof fn law_sensitive_page_text_left_out(
    tabs: Seq<Tab>,
    hist: Seq<HistoryEntry>,
    active: usize,
    text1: Seq<char>,
    text2: Seq<char>,
)
    requires
        is_sensitive_page_spec(tab_url_of(tabs, active, 0)),
    ensures
        learning_prompt(tabs, hist, active, text1) == learning_prompt(tabs, hist, active, text2),
{
}

/// The open-tab section never takes the prompt past `TAB_LIMIT` bytes.
pub proof fn law_tab_section_within_budget(tabs: Seq<Tab>, active: usize, out: Seq<char>, i: int)
    requires
        utf8_len(out) <= TAB_LIMIT,
    ensures
        utf8_len(tab_section(tabs, active, out, i)) <= TAB_LIMIT,
    decreases tabs.len() - i,
{
    if 0 <= i < tabs.len() {
        let line = tab_line(tabs[i], active);
        if utf8_len(out) + utf8_len(line) <= TAB_LIMIT {
            crate::text::lemma_utf8_len_concat(out, line);
            law_tab_section_within_budget(tabs, active, out + line, i + 1);
        }
    }
}

/// The history section never takes the prompt past `HISTORY_LIMIT` bytes,
/// but for the closing `- ...` line.
pub proof fn law_history_section_within_budget(tabs: Seq<Tab>, hist: Seq<HistoryEntry>, out: Seq<char>, j: int)
    requires
        utf8_len(out) <= HISTORY_LIMIT,
    ensures
        utf8_len(history_section(tabs, hist, out, j)) <= HISTORY_LIMIT + 6,
    decreases hist.len() - j,
{
    if 0 <= j < hist.len() {
        let e = hist[hist.len() - 1 - j];
        if is_tab_url(tabs, e.url@) {
            law_history_section_within_budget(tabs, hist, out, j + 1);
        } else {
            let line = history_line(e);
            if utf8_len(out) + utf8_len(line) > HISTORY_LIMIT {
                crate::text::lemma_utf8_len_concat(out, "- ...\n"@);
                reveal_strlit("- ...\n");
                reveal_with_fuel(utf8_len, 7);
                assert(utf8_len("- ...\n"@) == 6);
            } else {
                crate::text::lemma_utf8_len_concat(out, line);
                law_history_section_within_budget(tabs, hist, out + line, j + 1);
            }
        }
    }
}


/// No character of `s` is a decimal digit.
pub open spec fn no_digits(s: Seq<char>) -> bool {
    forall|k: int| 0 <= k < s.len() ==> !is_digit(#[trigger] s[k])
}

proof fn lemma_push_len(acc: Seq<char>, c: char)
    ensures
        utf8_len(acc.push(c)) == utf8_len(acc) + char_width(c),
        char_width(c) <= 4,
{
    assert(acc.push(c) =~= acc + seq![c]);
    crate::text::lemma_utf8_len_concat(acc, seq![c]);
    assert(seq![c].drop_first() =~= Seq::<char>::empty());
    assert(utf8_len(seq![c]) == char_width(c) + utf8_len(Seq::<char>::empty()));
}

proof fn lemma_squeeze_within(s: Seq<char>, i: int, acc: Seq<char>, prev: u8)
    requires
        utf8_len(acc) < CONTENT_BUDGET,
        no_digits(acc),
        no_digits(s),
    ensures
        utf8_len(squeeze(s, i, acc, prev)) <= CONTENT_BUDGET + 3,
        no_digits(squeeze(s, i, acc, prev)),
    decreases s.len() - i,
{
    if 0 <= i < s.len() {
        let c = s[i];
        let p = if c == '\n' { next_count(prev) } else { 0u8 };
        lemma_push_len(acc, c);
        let acc2 = if c != '\n' || p <= 2 { acc.push(c) } else { acc };
        assert(no_digits(acc2)) by {
            assert forall|k: int| 0 <= k < acc2.len() implies !is_digit(#[trigger] acc2[k]) by {
                if k < acc.len() {
                    assert(acc2[k] == acc[k]);
                }
            }
        }
        if utf8_len(acc2) < CONTENT_BUDGET {
            lemma_squeeze_within(s, i + 1, acc2, p);
        }
    }
}

/// The page text the prompt shows is at most `CONTENT_BUDGET + 3` bytes when
/// the page holds no digit.
proof fn lemma_page_text_within(text: Seq<char>)
    requires
        no_digits(text),
    ensures
        utf8_len(page_text_part(text)) <= CONTENT_BUDGET + 3,
{
    let f = text.filter(kept_char());
    broadcast use vstd::seq_lib::group_filter_ensures;
    assert(no_digits(f)) by {
        assert forall|k: int| 0 <= k < f.len() implies !is_digit(#[trigger] f[k]) by {
            assert(f.contains(f[k]));
            text.lemma_filter_contains_rev(kept_char(), f[k]);
        }
    }
    assert(utf8_len(Seq::<char>::empty()) == 0);
    lemma_squeeze_within(f, 0, Seq::empty(), 0);
    let q = squeeze(f, 0, Seq::empty(), 0);
    crate::text::lemma_trim_within(q);
    let t = trim(q);
    assert(no_digits(t)) by {
        assert forall|k: int| 0 <= k < t.len() implies !is_digit(#[trigger] t[k]) by {
            assert(q.contains(t[k]));
        }
    }
    crate::sanitize::law_text_without_digits_unchanged(t);
}

proof fn lemma_literal_within(s: Seq<char>, n: nat)
    requires
        s.len() <= n,
    ensures
        utf8_len(s) <= 4 * n,
{
    lemma_utf8_len_bounds(s);
}

/// The prompt never passes `BUDGET` bytes when the page text holds no digit
/// (redacting a card number is the one step that can lengthen the text).
pub proof fn law_prompt_within_budget(tabs: Seq<Tab>, hist: Seq<HistoryEntry>, active: usize, text: Seq<char>)
    requires
        no_digits(text),
    ensures
        learning_prompt(tabs, hist, active, text) matches Some(p) ==> utf8_len(p) <= BUDGET,
{
    reveal_strlit("Open tabs:\n");
    reveal_strlit("Recent history:\n");
    reveal_strlit("\n");
    reveal_strlit("Active page text:\n");
    reveal_strlit("Active page: [sensitive page — content omitted]\n");
    let tp = tabs_part(tabs, active);
    if tabs.len() > 0 {
        lemma_literal_within("Open tabs:\n"@, 11);
        law_tab_section_within_budget(tabs, active, "Open tabs:\n"@, 0);
        crate::text::lemma_utf8_len_concat(tab_section(tabs, active, "Open tabs:\n"@, 0), "\n"@);
        lemma_literal_within("\n"@, 1);
    }
    assert(utf8_len(tp) <= TAB_LIMIT + 4);
    let b = history_part(tabs, hist, tp);
    if hist.len() > 0 {
        lemma_literal_within("Recent history:\n"@, 16);
        crate::text::lemma_utf8_len_concat(tp, "Recent history:\n"@);
        law_history_section_within_budget(tabs, hist, tp + "Recent history:\n"@, 0);
        crate::text::lemma_utf8_len_concat(history_section(tabs, hist, tp + "Recent history:\n"@, 0), "\n"@);
        lemma_literal_within("\n"@, 1);
    }
    assert(utf8_len(b) <= HISTORY_LIMIT + 10);
    lemma_page_text_within(text);
    let pt = page_text_part(text);
    lemma_literal_within("Active page text:\n"@, 18);
    lemma_literal_within("\n"@, 1);
    crate::text::lemma_utf8_len_concat(b, "Active page text:\n"@);
    crate::text::lemma_utf8_len_concat(b + "Active page text:\n"@, pt);
    crate::text::lemma_utf8_len_concat(b + "Active page text:\n"@ + pt, "\n"@);
    let line = "Active page: [sensitive page — content omitted]\n"@;
    lemma_literal_within(line, 60);
    crate::text::lemma_utf8_len_concat(b, line);
}

} // verus!
