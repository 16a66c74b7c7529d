//! Key tables for trusted input: `KeyboardEvent.key` names mapped to macOS
//! virtual key codes and the characters AppKit attaches to a key event, and
//! the modifier flags of the MCP `modifiers` list.

use vstd::prelude::*;
use crate::text::{all_digits, ascii_lower, chars_of, is_ascii_upper, is_digit, string_of, to_ascii_lower};

verus! {

// NSEventModifierFlags
pub const FLAG_SHIFT: usize = 0x2_0000;
pub const FLAG_CONTROL: usize = 0x4_0000;
pub const FLAG_OPTION: usize = 0x8_0000;
pub const FLAG_COMMAND: usize = 0x10_0000;

/// Virtual key code + the `characters` string AppKit attaches to the event.
#[derive(Debug, Clone, PartialEq, Eq)]
pub struct KeyInfo {
    pub code: u16,
    pub chars: String,
    /// Characters with Shift released (AppKit's `charactersIgnoringModifiers`).
    pub base_chars: String,
    /// Shift is implied by the key itself (`"A"`, `"!"`).
    pub shift: bool,
}

impl View for KeyInfo {
    type V = (u16, Seq<char>, Seq<char>, bool);

    open spec fn view(&self) -> (u16, Seq<char>, Seq<char>, bool) {
        (self.code, self.chars@, self.base_chars@, self.shift)
    }
}

/// Named keys: key code and the single character AppKit sends for them.
pub open spec fn named_key(key: Seq<char>) -> Option<(u16, char)> {
    if key == "Enter"@ || key == "Return"@ {
        Some((36u16, '\r'))
    } else if key == "Tab"@ {
        Some((48u16, '\t'))
    } else if key == "Escape"@ || key == "Esc"@ {
        Some((53u16, '\u{1b}'))
    } else if key == "Backspace"@ {
        Some((51u16, '\u{7f}'))
    } else if key == "Delete"@ {
        Some((117u16, '\u{F728}'))
    } else if key == "Space"@ || key == "Spacebar"@ {
        Some((49u16, ' '))
    } else if key == "ArrowUp"@ || key == "Up"@ {
        Some((126u16, '\u{F700}'))
    } else if key == "ArrowDown"@ || key == "Down"@ {
        Some((125u16, '\u{F701}'))
    } else if key == "ArrowLeft"@ || key == "Left"@ {
        Some((123u16, '\u{F702}'))
    } else if key == "ArrowRight"@ || key == "Right"@ {
        Some((124u16, '\u{F703}'))
    } else if key == "Home"@ {
        Some((115u16, '\u{F729}'))
    } else if key == "End"@ {
        Some((119u16, '\u{F72B}'))
    } else if key == "PageUp"@ {
        Some((116u16, '\u{F72C}'))
    } else if key == "PageDown"@ {
        Some((121u16, '\u{F72D}'))
    } else {
        None
    }
}

/// Key codes of F1..F12.
pub open spec fn f_key_codes() -> Seq<u16> {
    seq![122u16, 120, 99, 118, 96, 97, 98, 100, 101, 109, 103, 111]
}

/// Decimal value of a run of ASCII digits.
pub open spec fn decimal_value(d: Seq<char>) -> int
    decreases d.len(),
{
    if d.len() == 0 {
        0
    } else {
        decimal_value(d.drop_last()) * 10 + (d.last() as int - '0' as int)
    }
}

/// `str::parse::<u32>` on text made of an optional `+` and at least one
/// ASCII digit, when the value is in 1..=12 (the only values that select a
/// function key).
pub open spec fn f_key_number(rest: Seq<char>) -> Option<int> {
    let digits = if rest.len() > 0 && rest[0] == '+' {
        rest.drop_first()
    } else {
        rest
    };
    if digits.len() > 0 && all_digits(digits) && 1 <= decimal_value(digits) <= 12 {
        Some(decimal_value(digits))
    } else {
        None
    }
}

/// Shifted characters of the US layout and the key each one is on.
pub open spec fn us_shifted() -> Seq<char> {
    "!@#$%^&*()_+{}|:\"<>?~"@
}

pub open spec fn us_unshifted() -> Seq<char> {
    "1234567890-=[]\\;',./`"@
}

/// Unshifted character on a US layout, and whether Shift produces `ch`.
pub open spec fn us_layout_spec(ch: char) -> (char, bool) {
    if is_ascii_upper(ch) {
        (ascii_lower(ch), true)
    } else {
        match crate::text::find_char(us_shifted(), ch) {
            Some(i) => (us_unshifted()[i], true),
            None => (ch, false),
        }
    }
}

/// ANSI US virtual key codes (Carbon `kVK_*`); unknown characters map to 0.
pub open spec fn us_key_code_spec(ch: char) -> u16 {
    match ch {
        'a' => 0,
        's' => 1,
        'd' => 2,
        'f' => 3,
        'h' => 4,
        'g' => 5,
        'z' => 6,
        'x' => 7,
        'c' => 8,
        'v' => 9,
        'b' => 11,
        'q' => 12,
        'w' => 13,
        'e' => 14,
        'r' => 15,
        'y' => 16,
        't' => 17,
        '1' => 18,
        '2' => 19,
        '3' => 20,
        '4' => 21,
        '6' => 22,
        '5' => 23,
        '=' => 24,
        '9' => 25,
        '7' => 26,
        '-' => 27,
        '8' => 28,
        '0' => 29,
        ']' => 30,
        'o' => 31,
        'u' => 32,
        '[' => 33,
        'i' => 34,
        'p' => 35,
        'l' => 37,
        'j' => 38,
        '\'' => 39,
        'k' => 40,
        ';' => 41,
        '\\' => 42,
        ',' => 43,
        '/' => 44,
        'n' => 45,
        'm' => 46,
        '.' => 47,
        '`' => 50,
        ' ' => 49,
        _ => 0,
    }
}

/// What `key_info` returns for a `KeyboardEvent.key` value: a named key,
/// `F1`..`F12`, or a single character (code from its unshifted key on the US
/// layout); anything else is unknown.
pub open spec fn key_info_spec(key: Seq<char>) -> Option<(u16, Seq<char>, Seq<char>, bool)> {
    match named_key(key) {
        Some((code, ch)) => Some((code, seq![ch], seq![ch], false)),
        None => {
            let fk = if key.len() > 0 && key[0] == 'F' {
                f_key_number(key.drop_first())
            } else {
                None
            };
            match fk {
                Some(n) => {
                    let ch = (0xF704 + n - 1) as char;
                    Some((f_key_codes()[n - 1], seq![ch], seq![ch], false))
                },
                None => if key.len() == 1 {
                    let (base, shift) = us_layout_spec(key[0]);
                    Some((us_key_code_spec(base), seq![key[0]], seq![base], shift))
                } else {
                    None
                },
            }
        },
    }
}

fn str_is(key: &[char], name: &str) -> (r: bool)
    ensures
        r == (key@ == name@),
{
    let n = chars_of(name);
    if key.len() != n.len() {
        return false;
    }
    let mut i: usize = 0;
    while i < key.len()
        invariant
            key@.len() == n@.len(),
            n@ == name@,
            i <= key@.len(),
            forall|j: int| 0 <= j < i ==> key@[j] == n@[j],
        decreases key@.len() - i,
    {
        if key[i] != n[i] {
            assert(key@[i as int] != n@[i as int]);
            return false;
        }
        i = i + 1;
    }
    assert(key@ =~= n@);
    true
}

fn named_key_exec(key: &[char]) -> (r: Option<(u16, char)>)
    ensures
        r == named_key(key@),
{
    if str_is(key, "Enter") || str_is(key, "Return") {
        Some((36u16, '\r'))
    } else if str_is(key, "Tab") {
        Some((48u16, '\t'))
    } else if str_is(key, "Escape") || str_is(key, "Esc") {
        Some((53u16, '\u{1b}'))
    } else if str_is(key, "Backspace") {
        Some((51u16, '\u{7f}'))
    } else if str_is(key, "Delete") {
        Some((117u16, '\u{F728}'))
    } else if str_is(key, "Space") || str_is(key, "Spacebar") {
        Some((49u16, ' '))
    } else if str_is(key, "ArrowUp") || str_is(key, "Up") {
        Some((126u16, '\u{F700}'))
    } else if str_is(key, "ArrowDown") || str_is(key, "Down") {
        Some((125u16, '\u{F701}'))
    } else if str_is(key, "ArrowLeft") || str_is(key, "Left") {
        Some((123u16, '\u{F702}'))
    } else if str_is(key, "ArrowRight") || str_is(key, "Right") {
        Some((124u16, '\u{F703}'))
    } else if str_is(key, "Home") {
        Some((115u16, '\u{F729}'))
    } else if str_is(key, "End") {
        Some((119u16, '\u{F72B}'))
    } else if str_is(key, "PageUp") {
        Some((116u16, '\u{F72C}'))
    } else if str_is(key, "PageDown") {
        Some((121u16, '\u{F72D}'))
    } else {
        None
    }
}

pub(crate) proof fn lemma_decimal_value_nonneg(d: Seq<char>)
    requires
        forall|i: int| 0 <= i < d.len() ==> is_digit(#[trigger] d[i]),
    ensures
        decimal_value(d) >= 0,
        d.len() > 0 ==> decimal_value(d) >= decimal_value(d.drop_last()) * 10,
    decreases d.len(),
{
    if d.len() > 0 {
        lemma_decimal_value_nonneg(d.drop_last());
    }
}

/// The number after `F` when it selects F1..F12.
fn f_key_number_exec(key: &[char]) -> (r: Option<u32>)
    requires
        key@.len() > 0,
    ensures
        r matches Some(n) ==> f_key_number(key@.drop_first()) == Some(n as int),
        r is None ==> f_key_number(key@.drop_first()) is None,
{
    let rest = crate::sanitize::sub_chars(key, 1, key.len());
    assert(rest@ =~= key@.drop_first());
    let start: usize = if rest.len() > 0 && rest[0] == '+' { 1 } else { 0 };
    let digits = crate::sanitize::sub_chars(rest.as_slice(), start, rest.len());
    proof {
        if start == 1 {
            assert(digits@ =~= rest@.drop_first());
        } else {
            assert(digits@ =~= rest@);
        }
    }
    if digits.len() == 0 {
        return None;
    }
    // Accumulate while the value stays small; anything above 12 is no F key.
    let mut v: u32 = 0;
    let mut big = false;
    let mut i: usize = 0;
    let ghost rest0 = key@.drop_first();
    assert(digits@ == (if rest0.len() > 0 && rest0[0] == '+' { rest0.drop_first() } else { rest0 }));
    while i < digits.len()
        invariant
            digits@ == (if rest0.len() > 0 && rest0[0] == '+' { rest0.drop_first() } else { rest0 }),
            rest0 == key@.drop_first(),
            key@.len() > 0,
            i <= digits@.len(),
            forall|j: int| 0 <= j < i ==> is_digit(#[trigger] digits@[j]),
            !big ==> v as int == decimal_value(digits@.take(i as int)) && v <= 12,
            big ==> decimal_value(digits@.take(i as int)) > 12,
        decreases digits@.len() - i,
    {
        let c = digits[i];
        if !('0' <= c && c <= '9') {
            proof {
                let dd = if rest0.len() > 0 && rest0[0] == '+' { rest0.drop_first() } else { rest0 };
                assert(dd == digits@);
                assert(!is_digit(dd[i as int]));
                assert(!all_digits(dd));
            }
            return None;
        }
        proof {
            assert(digits@.take(i + 1).drop_last() =~= digits@.take(i as int));
            lemma_decimal_value_nonneg(digits@.take(i + 1));
        }
        if !big {
            let nv: u32 = v * 10 + (c as u32 - 48);
            if nv > 12 {
                big = true;
            } else {
                v = nv;
            }
        }
        i = i + 1;
    }
    assert(digits@.take(digits@.len() as int) =~= digits@);
    if big || v < 1 {
        None
    } else {
        Some(v)
    }
}

/// Unshifted character on a US layout, and whether Shift produces `ch`.
pub fn us_layout(ch: char) -> (r: (char, bool))
    ensures
        r == us_layout_spec(ch),
{
    if 'A' <= ch && ch <= 'Z' {
        return (to_ascii_lower(ch), true);
    }
    let shifted = chars_of("!@#$%^&*()_+{}|:\"<>?~");
    let base = chars_of("1234567890-=[]\\;',./`");
    proof {
        reveal_strlit("!@#$%^&*()_+{}|:\"<>?~");
        reveal_strlit("1234567890-=[]\\;',./`");
    }
    match crate::text::find_char_exec(shifted.as_slice(), ch) {
        Some(i) => (base[i], true),
        None => (ch, false),
    }
}

/// ANSI US virtual key codes (Carbon `kVK_*`). Unknown characters map to 0;
/// WebKit still inserts them via `characters`, only `KeyboardEvent.code` is off.
pub fn us_key_code(ch: char) -> (r: u16)
    ensures
        r == us_key_code_spec(ch),
{
    match ch {
        'a' => 0,
        's' => 1,
        'd' => 2,
        'f' => 3,
        'h' => 4,
        'g' => 5,
        'z' => 6,
        'x' => 7,
        'c' => 8,
        'v' => 9,
        'b' => 11,
        'q' => 12,
        'w' => 13,
        'e' => 14,
        'r' => 15,
        'y' => 16,
        't' => 17,
        '1' => 18,
        '2' => 19,
        '3' => 20,
        '4' => 21,
        '6' => 22,
        '5' => 23,
        '=' => 24,
        '9' => 25,
        '7' => 26,
        '-' => 27,
        '8' => 28,
        '0' => 29,
        ']' => 30,
        'o' => 31,
        'u' => 32,
        '[' => 33,
        'i' => 34,
        'p' => 35,
        'l' => 37,
        'j' => 38,
        '\'' => 39,
        'k' => 40,
        ';' => 41,
        '\\' => 42,
        ',' => 43,
        '/' => 44,
        'n' => 45,
        'm' => 46,
        '.' => 47,
        '`' => 50,
        ' ' => 49,
        _ => 0,
    }
}

fn one_char_string(c: char) -> (r: String)
    ensures
        r@ == seq![c],
{
    let v = vec![c];
    assert(v@ =~= seq![c]);
    string_of(v.as_slice())
}

/// Map a `KeyboardEvent.key` value to macOS virtual key code + characters.
/// Returns `None` for names we don't know, so a typo errors instead of
/// "pressing" garbage.
pub fn key_info(key: &str) -> (r: Option<KeyInfo>)
    ensures
        r matches Some(k) ==> key_info_spec(key@) == Some(k@),
        r is None ==> key_info_spec(key@) is None,
{
    let k = chars_of(key);
    if let Some((code, ch)) = named_key_exec(k.as_slice()) {
        return Some(KeyInfo { code, chars: one_char_string(ch), base_chars: one_char_string(ch), shift: false });
    }
    if k.len() > 0 && k[0] == 'F' {
        if let Some(n) = f_key_number_exec(k.as_slice()) {
            let codes: Vec<u16> = vec![122u16, 120, 99, 118, 96, 97, 98, 100, 101, 109, 103, 111];
            assert(codes@ == f_key_codes());
            let ch = char_from_fkey(n);
            return Some(KeyInfo {
                code: codes[(n - 1) as usize],
                chars: one_char_string(ch),
                base_chars: one_char_string(ch),
                shift: false,
            });
        }
    }
    if k.len() != 1 {
        return None;
    }
    let ch = k[0];
    let (base, shift) = us_layout(ch);
    Some(KeyInfo {
        code: us_key_code(base),
        chars: one_char_string(ch),
        base_chars: one_char_string(base),
        shift,
    })
}

/// The private-use character AppKit sends for function key `F<n>`.
fn char_from_fkey(n: u32) -> (r: char)
    requires
        1 <= n <= 12,
    ensures
        r == (0xF704 + n - 1) as char,
{
    match n {
        1 => '\u{F704}',
        2 => '\u{F705}',
        3 => '\u{F706}',
        4 => '\u{F707}',
        5 => '\u{F708}',
        6 => '\u{F709}',
        7 => '\u{F70A}',
        8 => '\u{F70B}',
        9 => '\u{F70C}',
        10 => '\u{F70D}',
        11 => '\u{F70E}',
        _ => '\u{F70F}',
    }
}

/// Flag of one modifier name (unknown names give 0).
pub open spec fn modifier_flag(m: Seq<char>) -> usize {
    if m == "shift"@ {
        FLAG_SHIFT
    } else if m == "ctrl"@ || m == "control"@ {
        FLAG_CONTROL
    } else if m == "alt"@ || m == "option"@ {
        FLAG_OPTION
    } else if m == "meta"@ || m == "cmd"@ || m == "command"@ {
        FLAG_COMMAND
    } else {
        0
    }
}

/// Bitwise OR of the flags of the first `k` modifiers.
pub open spec fn modifier_flags_spec(ms: Seq<String>, k: int) -> usize
    decreases k,
{
    if k <= 0 {
        0
    } else {
        modifier_flags_spec(ms, k - 1) | modifier_flag(ms[k - 1]@)
    }
}

/// NSEventModifierFlags for the MCP `modifiers` list (unknown names ignored).
pub fn modifier_flags(modifiers: &[String]) -> (r: usize)
    ensures
        r == modifier_flags_spec(modifiers@, modifiers@.len() as int),
{
    let mut acc: usize = 0;
    let mut i: usize = 0;
    while i < modifiers.len()
        invariant
            i <= modifiers@.len(),
            acc == modifier_flags_spec(modifiers@, i as int),
        decreases modifiers@.len() - i,
    {
        let m = chars_of(modifiers[i].as_str());
        let f = if str_is(m.as_slice(), "shift") {
            FLAG_SHIFT
        } else if str_is(m.as_slice(), "ctrl") || str_is(m.as_slice(), "control") {
            FLAG_CONTROL
        } else if str_is(m.as_slice(), "alt") || str_is(m.as_slice(), "option") {
            FLAG_OPTION
        } else if str_is(m.as_slice(), "meta") || str_is(m.as_slice(), "cmd") || str_is(
            m.as_slice(),
            "command",
        ) {
            FLAG_COMMAND
        } else {
            0
        };
        acc = acc | f;
        i = i + 1;
    }
    acc
}


/// The event flags of a key press: the requested modifiers, plus Shift when
/// the key itself implies it.
pub fn key_event_flags(key: &KeyInfo, modifiers: &[String]) -> (r: usize)
    ensures
        r == (if key.shift {
            modifier_flags_spec(modifiers@, modifiers@.len() as int) | FLAG_SHIFT
        } else {
            modifier_flags_spec(modifiers@, modifiers@.len() as int)
        }),
{
    let mut flags = modifier_flags(modifiers);
    if key.shift {
        flags = flags | FLAG_SHIFT;
    }
    flags
}

/// The key typed for one character of text: `\r` is dropped, `\n` is Enter,
/// `\t` is Tab, anything else is the key for that character.
pub open spec fn text_key(ch: char) -> Option<(u16, Seq<char>, Seq<char>, bool)> {
    if ch == '\r' {
        None
    } else if ch == '\n' {
        key_info_spec("Enter"@)
    } else if ch == '\t' {
        key_info_spec("Tab"@)
    } else {
        key_info_spec(seq![ch])
    }
}

/// The keys typed for `s`, in order.
pub open spec fn text_keys(s: Seq<char>) -> Seq<(u16, Seq<char>, Seq<char>, bool)>
    decreases s.len(),
{
    if s.len() == 0 {
        Seq::empty()
    } else {
        match text_key(s.last()) {
            Some(k) => text_keys(s.drop_last()).push(k),
            None => text_keys(s.drop_last()),
        }
    }
}

/// The key presses that type `text` on the focused element (see `text_key`).
pub fn type_text_keys(text: &str) -> (r: Vec<KeyInfo>)
    ensures
        r@.len() == text_keys(text@).len(),
        forall|i: int| 0 <= i < r@.len() ==> #[trigger] r@[i]@ == text_keys(text@)[i],
{
    let s = chars_of(text);
    let mut r: Vec<KeyInfo> = Vec::new();
    let mut i: usize = 0;
    while i < s.len()
        invariant
            s@ == text@,
            i <= s@.len(),
            r@.len() == text_keys(s@.take(i as int)).len(),
            forall|j: int| 0 <= j < r@.len() ==> #[trigger] r@[j]@ == text_keys(s@.take(i as int))[j],
        decreases s@.len() - i,
    {
        let ch = s[i];
        proof {
            assert(s@.take(i + 1).drop_last() =~= s@.take(i as int));
            assert(s@.take(i + 1).last() == ch);
        }
        let key = if ch == '\r' {
            None
        } else if ch == '\n' {
            key_info("Enter")
        } else if ch == '\t' {
            key_info("Tab")
        } else {
            let one = one_char_string(ch);
            key_info(one.as_str())
        };
        if let Some(k) = key {
            r.push(k);
        }
        i = i + 1;
    }
    assert(s@.take(s@.len() as int) =~= s@);
    r
}

// ─────────────────────────────────────────────────────────────────────
// Laws
// ─────────────────────────────────────────────────────────────────────

/// The four modifier flags together.
pub open spec fn all_modifier_flags() -> usize {
    FLAG_SHIFT | FLAG_CONTROL | FLAG_OPTION | FLAG_COMMAND
}

proof fn lemma_flags_agree(s: Seq<String>, t: Seq<String>, k: int)
    requires
        0 <= k <= s.len(),
        k <= t.len(),
        forall|i: int| 0 <= i < k ==> s[i] == t[i],
    ensures
        modifier_flags_spec(s, k) == modifier_flags_spec(t, k),
    decreases k,
{
    if k > 0 {
        lemma_flags_agree(s, t, k - 1);
    }
}

proof fn lemma_flag_in_mask(m: Seq<char>)
    ensures
        modifier_flag(m) & !all_modifier_flags() == 0,
{
    let f = modifier_flag(m);
    assert(f == 0 || f == 0x2_0000usize || f == 0x4_0000usize || f == 0x8_0000usize || f == 0x10_0000usize);
    assert(all_modifier_flags() == 0x1E_0000usize) by (bit_vector);
    assert(f == 0 || f == 0x2_0000usize || f == 0x4_0000usize || f == 0x8_0000usize || f == 0x10_0000usize
        ==> f & !0x1E_0000usize == 0) by (bit_vector);
}

/// Modifier flags compose: the flags of two lists one after the other are
/// the flags of each ORed together, an empty list gives none, and no name
/// sets a flag other than Shift, Control, Option and Command.
pub proof fn law_modifier_flags_concat(a: Seq<String>, b: Seq<String>)
    ensures
        modifier_flags_spec(a + b, (a + b).len() as int) == modifier_flags_spec(a, a.len() as int)
            | modifier_flags_spec(b, b.len() as int),
        modifier_flags_spec(Seq::<String>::empty(), 0) == 0,
        modifier_flags_spec(a, a.len() as int) & !all_modifier_flags() == 0,
    decreases a.len() + b.len(),
{
    let x = modifier_flags_spec(a, a.len() as int);
    if b.len() == 0 {
        assert(a + b =~= a);
        assert(x | 0 == x) by (bit_vector);
    } else {
        let b1 = b.drop_last();
        law_modifier_flags_concat(a, b1);
        let n = (a + b).len() as int;
        lemma_flags_agree(a + b, a + b1, n - 1);
        lemma_flags_agree(b, b1, b1.len() as int);
        assert((a + b)[n - 1] == b[b.len() - 1]);
        let y = modifier_flags_spec(b1, b1.len() as int);
        let f = modifier_flag(b[b.len() - 1]@);
        assert((x | y) | f == x | (y | f)) by (bit_vector);
    }
    if a.len() > 0 {
        let a1 = a.drop_last();
        law_modifier_flags_concat(a1, Seq::empty());
        lemma_flags_agree(a, a1, a1.len() as int);
        lemma_flag_in_mask(a[a.len() - 1]@);
        let z = modifier_flags_spec(a1, a1.len() as int);
        let f = modifier_flag(a[a.len() - 1]@);
        let m = all_modifier_flags();
        assert(z & !m == 0 && f & !m == 0 ==> (z | f) & !m == 0) by (bit_vector);
    } else {
        let m = all_modifier_flags();
        assert(0usize & !m == 0) by (bit_vector);
    }
}

/// No single character is a named key.
proof fn lemma_single_char_not_named(key: Seq<char>)
    requires
        key.len() == 1,
    ensures
        named_key(key) is None,
{
    reveal_strlit("Enter");
    reveal_strlit("Return");
    reveal_strlit("Tab");
    reveal_strlit("Escape");
    reveal_strlit("Esc");
    reveal_strlit("Backspace");
    reveal_strlit("Delete");
    reveal_strlit("Space");
    reveal_strlit("Spacebar");
    reveal_strlit("ArrowUp");
    reveal_strlit("Up");
    reveal_strlit("ArrowDown");
    reveal_strlit("Down");
    reveal_strlit("ArrowLeft");
    reveal_strlit("Left");
    reveal_strlit("ArrowRight");
    reveal_strlit("Right");
    reveal_strlit("Home");
    reveal_strlit("End");
    reveal_strlit("PageUp");
    reveal_strlit("PageDown");
}

/// A character on an unshifted key of the US layout is not one Shift produces.
proof fn lemma_base_unshifted(c: char)
    ensures
        !is_ascii_upper(us_layout_spec(c).0),
        crate::text::find_char(us_shifted(), us_layout_spec(c).0) is None,
{
    reveal_strlit("!@#$%^&*()_+{}|:\"<>?~");
    reveal_strlit("1234567890-=[]\\;',./`");
    crate::text::lemma_find_seq(us_shifted(), seq![c]);
    let b = us_layout_spec(c).0;
    crate::text::lemma_find_seq(us_shifted(), seq![b]);
    match crate::text::find_char(us_shifted(), b) {
        Some(j) => {
            assert(crate::text::occurs_at(us_shifted(), seq![b], j));
            assert(us_shifted().subrange(j, j + 1)[0] == us_shifted()[j]);
            assert(us_shifted()[j] == b);
            if is_ascii_upper(c) {
                assert(false);
            } else {
                match crate::text::find_char(us_shifted(), c) {
                    Some(i) => {
                        assert(0 <= i < 21);
                        assert(b == us_unshifted()[i]);
                        assert(0 <= j < 21);
                        assert(us_shifted()[j] != us_unshifted()[i]);
                    },
                    None => {
                        assert(b == c);
                        assert(us_shifted().subrange(j, j + 1) =~= seq![c]);
                    },
                }
            }
        },
        None => {},
    }
    if is_ascii_upper(c) {
    } else {
        match crate::text::find_char(us_shifted(), c) {
            Some(i) => {
                crate::text::lemma_find_seq(us_shifted(), seq![c]);
                assert(0 <= i < 21);
            },
            None => {},
        }
    }
}

/// A single character is pressed on its unshifted key: the event carries
/// the character, Shift is held exactly for upper-case letters and the
/// shifted symbols of the US layout, the base character is the character
/// itself without Shift and the lower-case letter for an upper-case one,
/// and the key code is the base character's own.
pub proof fn law_single_char_uses_base_key(key: Seq<char>)
    requires
        key.len() == 1,
    ensures
        key_info_spec(key) matches Some((code, chars, base, shift)) && {
            &&& chars == key
            &&& shift == (is_ascii_upper(key[0]) || crate::text::find_char(us_shifted(), key[0]) is Some)
            &&& !shift ==> base == key
            &&& is_ascii_upper(key[0]) ==> base == seq![ascii_lower(key[0])]
            &&& key_info_spec(base) matches Some((code2, _, _, _)) && code2 == code
        },
{
    lemma_single_char_not_named(key);
    assert(key =~= seq![key[0]]);
    let (b, sh) = us_layout_spec(key[0]);
    lemma_single_char_not_named(seq![b]);
    lemma_base_unshifted(key[0]);
    assert(seq![b][0] == b);
}


/// Each named key presses its own key: the Carbon virtual key code of that
/// key, with the character AppKit sends for it (the function-key characters
/// for the arrows, Delete, Home, End and the page keys), and no Shift.
pub proof fn law_named_keys()
    ensures
        key_info_spec("Enter"@) == Some((36u16, seq!['\r'], seq!['\r'], false)),
        key_info_spec("Return"@) == Some((36u16, seq!['\r'], seq!['\r'], false)),
        key_info_spec("Tab"@) == Some((48u16, seq!['\t'], seq!['\t'], false)),
        key_info_spec("Escape"@) == Some((53u16, seq!['\u{1b}'], seq!['\u{1b}'], false)),
        key_info_spec("Esc"@) == Some((53u16, seq!['\u{1b}'], seq!['\u{1b}'], false)),
        key_info_spec("Backspace"@) == Some((51u16, seq!['\u{7f}'], seq!['\u{7f}'], false)),
        key_info_spec("Delete"@) == Some((117u16, seq!['\u{F728}'], seq!['\u{F728}'], false)),
        key_info_spec("Space"@) == Some((49u16, seq![' '], seq![' '], false)),
        key_info_spec("Spacebar"@) == Some((49u16, seq![' '], seq![' '], false)),
        key_info_spec("ArrowUp"@) == Some((126u16, seq!['\u{F700}'], seq!['\u{F700}'], false)),
        key_info_spec("Up"@) == Some((126u16, seq!['\u{F700}'], seq!['\u{F700}'], false)),
        key_info_spec("ArrowDown"@) == Some((125u16, seq!['\u{F701}'], seq!['\u{F701}'], false)),
        key_info_spec("Down"@) == Some((125u16, seq!['\u{F701}'], seq!['\u{F701}'], false)),
        key_info_spec("ArrowLeft"@) == Some((123u16, seq!['\u{F702}'], seq!['\u{F702}'], false)),
        key_info_spec("Left"@) == Some((123u16, seq!['\u{F702}'], seq!['\u{F702}'], false)),
        key_info_spec("ArrowRight"@) == Some((124u16, seq!['\u{F703}'], seq!['\u{F703}'], false)),
        key_info_spec("Right"@) == Some((124u16, seq!['\u{F703}'], seq!['\u{F703}'], false)),
        key_info_spec("Home"@) == Some((115u16, seq!['\u{F729}'], seq!['\u{F729}'], false)),
        key_info_spec("End"@) == Some((119u16, seq!['\u{F72B}'], seq!['\u{F72B}'], false)),
        key_info_spec("PageUp"@) == Some((116u16, seq!['\u{F72C}'], seq!['\u{F72C}'], false)),
        key_info_spec("PageDown"@) == Some((121u16, seq!['\u{F72D}'], seq!['\u{F72D}'], false)),
{
    assert(key_info_spec("Enter"@) == Some((36u16, seq!['\r'], seq!['\r'], false))) by {
        reveal_strlit("Enter");
        assert(named_key("Enter"@) == Some((36u16, '\r')));
    }
    assert(key_info_spec("Return"@) == Some((36u16, seq!['\r'], seq!['\r'], false))) by {
        reveal_strlit("Enter");
        reveal_strlit("Return");
        assert(named_key("Return"@) == Some((36u16, '\r')));
    }
    assert(key_info_spec("Tab"@) == Some((48u16, seq!['\t'], seq!['\t'], false))) by {
        reveal_strlit("Enter");
        reveal_strlit("Return");
        reveal_strlit("Tab");
        assert(named_key("Tab"@) == Some((48u16, '\t')));
    }
    assert(key_info_spec("Escape"@) == Some((53u16, seq!['\u{1b}'], seq!['\u{1b}'], false))) by {
        reveal_strlit("Enter");
        reveal_strlit("Return");
        reveal_strlit("Tab");
        reveal_strlit("Escape");
        assert(named_key("Escape"@) == Some((53u16, '\u{1b}')));
    }
    assert(key_info_spec("Esc"@) == Some((53u16, seq!['\u{1b}'], seq!['\u{1b}'], false))) by {
        reveal_strlit("Enter");
        reveal_strlit("Return");
        reveal_strlit("Tab");
        reveal_strlit("Escape");
        reveal_strlit("Esc");
        assert(named_key("Esc"@) == Some((53u16, '\u{1b}')));
    }
    assert(key_info_spec("Backspace"@) == Some((51u16, seq!['\u{7f}'], seq!['\u{7f}'], false))) by {
        reveal_strlit("Enter");
        reveal_strlit("Return");
        reveal_strlit("Tab");
        reveal_strlit("Escape");
        reveal_strlit("Esc");
        reveal_strlit("Backspace");
        assert(named_key("Backspace"@) == Some((51u16, '\u{7f}')));
    }
    assert(key_info_spec("Delete"@) == Some((117u16, seq!['\u{F728}'], seq!['\u{F728}'], false))) by {
        reveal_strlit("Enter");
        reveal_strlit("Return");
        reveal_strlit("Tab");
        reveal_strlit("Escape");
        reveal_strlit("Esc");
        reveal_strlit("Backspace");
        reveal_strlit("Delete");
        assert(named_key("Delete"@) == Some((117u16, '\u{F728}')));
    }
    assert(key_info_spec("Space"@) == Some((49u16, seq![' '], seq![' '], false))) by {
        reveal_strlit("Enter");
        reveal_strlit("Return");
        reveal_strlit("Tab");
        reveal_strlit("Escape");
        reveal_strlit("Esc");
        reveal_strlit("Backspace");
        reveal_strlit("Delete");
        reveal_strlit("Space");
        assert(named_key("Space"@) == Some((49u16, ' ')));
    }
    assert(key_info_spec("Spacebar"@) == Some((49u16, seq![' '], seq![' '], false))) by {
        reveal_strlit("Enter");
        reveal_strlit("Return");
        reveal_strlit("Tab");
        reveal_strlit("Escape");
        reveal_strlit("Esc");
        reveal_strlit("Backspace");
        reveal_strlit("Delete");
        reveal_strlit("Space");
        reveal_strlit("Spacebar");
        assert(named_key("Spacebar"@) == Some((49u16, ' ')));
    }
    assert(key_info_spec("ArrowUp"@) == Some((126u16, seq!['\u{F700}'], seq!['\u{F700}'], false))) by {
        reveal_strlit("Enter");
        reveal_strlit("Return");
        reveal_strlit("Tab");
        reveal_strlit("Escape");
        reveal_strlit("Esc");
        reveal_strlit("Backspace");
        reveal_strlit("Delete");
        reveal_strlit("Space");
        reveal_strlit("Spacebar");
        reveal_strlit("ArrowUp");
        assert(named_key("ArrowUp"@) == Some((126u16, '\u{F700}')));
    }
    assert(key_info_spec("Up"@) == Some((126u16, seq!['\u{F700}'], seq!['\u{F700}'], false))) by {
        reveal_strlit("Enter");
        reveal_strlit("Return");
        reveal_strlit("Tab");
        reveal_strlit("Escape");
        reveal_strlit("Esc");
        reveal_strlit("Backspace");
        reveal_strlit("Delete");
        reveal_strlit("Space");
        reveal_strlit("Spacebar");
        reveal_strlit("ArrowUp");
        reveal_strlit("Up");
        assert(named_key("Up"@) == Some((126u16, '\u{F700}')));
    }
    assert(key_info_spec("ArrowDown"@) == Some((125u16, seq!['\u{F701}'], seq!['\u{F701}'], false))) by {
        reveal_strlit("Enter");
        reveal_strlit("Return");
        reveal_strlit("Tab");
        reveal_strlit("Escape");
        reveal_strlit("Esc");
        reveal_strlit("Backspace");
        reveal_strlit("Delete");
        reveal_strlit("Space");
        reveal_strlit("Spacebar");
        reveal_strlit("ArrowUp");
        reveal_strlit("Up");
        reveal_strlit("ArrowDown");
        assert(named_key("ArrowDown"@) == Some((125u16, '\u{F701}')));
    }
    assert(key_info_spec("Down"@) == Some((125u16, seq!['\u{F701}'], seq!['\u{F701}'], false))) by {
        reveal_strlit("Enter");
        reveal_strlit("Return");
        reveal_strlit("Tab");
        reveal_strlit("Escape");
        reveal_strlit("Esc");
        reveal_strlit("Backspace");
        reveal_strlit("Delete");
        reveal_strlit("Space");
        reveal_strlit("Spacebar");
        reveal_strlit("ArrowUp");
        reveal_strlit("Up");
        reveal_strlit("ArrowDown");
        reveal_strlit("Down");
        assert(named_key("Down"@) == Some((125u16, '\u{F701}')));
    }
    assert(key_info_spec("ArrowLeft"@) == Some((123u16, seq!['\u{F702}'], seq!['\u{F702}'], false))) by {
        reveal_strlit("Enter");
        reveal_strlit("Return");
        reveal_strlit("Tab");
        reveal_strlit("Escape");
        reveal_strlit("Esc");
        reveal_strlit("Backspace");
        reveal_strlit("Delete");
        reveal_strlit("Space");
        reveal_strlit("Spacebar");
        reveal_strlit("ArrowUp");
        reveal_strlit("Up");
        reveal_strlit("ArrowDown");
        reveal_strlit("Down");
        reveal_strlit("ArrowLeft");
        assert("ArrowLeft"@[5] != "ArrowDown"@[5]);
        assert("ArrowLeft"@[0] != "Backspace"@[0]);
        assert(named_key("ArrowLeft"@) == Some((123u16, '\u{F702}')));
    }
    assert(key_info_spec("Left"@) == Some((123u16, seq!['\u{F702}'], seq!['\u{F702}'], false))) by {
        reveal_strlit("Enter");
        reveal_strlit("Return");
        reveal_strlit("Tab");
        reveal_strlit("Escape");
        reveal_strlit("Esc");
        reveal_strlit("Backspace");
        reveal_strlit("Delete");
        reveal_strlit("Space");
        reveal_strlit("Spacebar");
        reveal_strlit("ArrowUp");
        reveal_strlit("Up");
        reveal_strlit("ArrowDown");
        reveal_strlit("Down");
        reveal_strlit("ArrowLeft");
        reveal_strlit("Left");
        assert(named_key("Left"@) == Some((123u16, '\u{F702}')));
    }
    assert(key_info_spec("ArrowRight"@) == Some((124u16, seq!['\u{F703}'], seq!['\u{F703}'], false))) by {
        reveal_strlit("Enter");
        reveal_strlit("Return");
        reveal_strlit("Tab");
        reveal_strlit("Escape");
        reveal_strlit("Esc");
        reveal_strlit("Backspace");
        reveal_strlit("Delete");
        reveal_strlit("Space");
        reveal_strlit("Spacebar");
        reveal_strlit("ArrowUp");
        reveal_strlit("Up");
        reveal_strlit("ArrowDown");
        reveal_strlit("Down");
        reveal_strlit("ArrowLeft");
        reveal_strlit("Left");
        reveal_strlit("ArrowRight");
        assert(named_key("ArrowRight"@) == Some((124u16, '\u{F703}')));
    }
    assert(key_info_spec("Right"@) == Some((124u16, seq!['\u{F703}'], seq!['\u{F703}'], false))) by {
        reveal_strlit("Enter");
        reveal_strlit("Return");
        reveal_strlit("Tab");
        reveal_strlit("Escape");
        reveal_strlit("Esc");
        reveal_strlit("Backspace");
        reveal_strlit("Delete");
        reveal_strlit("Space");
        reveal_strlit("Spacebar");
        reveal_strlit("ArrowUp");
        reveal_strlit("Up");
        reveal_strlit("ArrowDown");
        reveal_strlit("Down");
        reveal_strlit("ArrowLeft");
        reveal_strlit("Left");
        reveal_strlit("ArrowRight");
        reveal_strlit("Right");
        assert(named_key("Right"@) == Some((124u16, '\u{F703}')));
    }
    assert(key_info_spec("Home"@) == Some((115u16, seq!['\u{F729}'], seq!['\u{F729}'], false))) by {
        reveal_strlit("Enter");
        reveal_strlit("Return");
        reveal_strlit("Tab");
        reveal_strlit("Escape");
        reveal_strlit("Esc");
        reveal_strlit("Backspace");
        reveal_strlit("Delete");
        reveal_strlit("Space");
        reveal_strlit("Spacebar");
        reveal_strlit("ArrowUp");
        reveal_strlit("Up");
        reveal_strlit("ArrowDown");
        reveal_strlit("Down");
        reveal_strlit("ArrowLeft");
        reveal_strlit("Left");
        reveal_strlit("ArrowRight");
        reveal_strlit("Right");
        reveal_strlit("Home");
        assert(named_key("Home"@) == Some((115u16, '\u{F729}')));
    }
    assert(key_info_spec("End"@) == Some((119u16, seq!['\u{F72B}'], seq!['\u{F72B}'], false))) by {
        reveal_strlit("Enter");
        reveal_strlit("Return");
        reveal_strlit("Tab");
        reveal_strlit("Escape");
        reveal_strlit("Esc");
        reveal_strlit("Backspace");
        reveal_strlit("Delete");
        reveal_strlit("Space");
        reveal_strlit("Spacebar");
        reveal_strlit("ArrowUp");
        reveal_strlit("Up");
        reveal_strlit("ArrowDown");
        reveal_strlit("Down");
        reveal_strlit("ArrowLeft");
        reveal_strlit("Left");
        reveal_strlit("ArrowRight");
        reveal_strlit("Right");
        reveal_strlit("Home");
        reveal_strlit("End");
        assert(named_key("End"@) == Some((119u16, '\u{F72B}')));
    }
    assert(key_info_spec("PageUp"@) == Some((116u16, seq!['\u{F72C}'], seq!['\u{F72C}'], false))) by {
        reveal_strlit("Enter");
        reveal_strlit("Return");
        reveal_strlit("Tab");
        reveal_strlit("Escape");
        reveal_strlit("Esc");
        reveal_strlit("Backspace");
        reveal_strlit("Delete");
        reveal_strlit("Space");
        reveal_strlit("Spacebar");
        reveal_strlit("ArrowUp");
        reveal_strlit("Up");
        reveal_strlit("ArrowDown");
        reveal_strlit("Down");
        reveal_strlit("ArrowLeft");
        reveal_strlit("Left");
        reveal_strlit("ArrowRight");
        reveal_strlit("Right");
        reveal_strlit("Home");
        reveal_strlit("End");
        reveal_strlit("PageUp");
        assert(named_key("PageUp"@) == Some((116u16, '\u{F72C}')));
    }
    assert(key_info_spec("PageDown"@) == Some((121u16, seq!['\u{F72D}'], seq!['\u{F72D}'], false))) by {
        reveal_strlit("Enter");
        reveal_strlit("Return");
        reveal_strlit("Tab");
        reveal_strlit("Escape");
        reveal_strlit("Esc");
        reveal_strlit("Backspace");
        reveal_strlit("Delete");
        reveal_strlit("Space");
        reveal_strlit("Spacebar");
        reveal_strlit("ArrowUp");
        reveal_strlit("Up");
        reveal_strlit("ArrowDown");
        reveal_strlit("Down");
        reveal_strlit("ArrowLeft");
        reveal_strlit("Left");
        reveal_strlit("ArrowRight");
        reveal_strlit("Right");
        reveal_strlit("Home");
        reveal_strlit("End");
        reveal_strlit("PageUp");
        reveal_strlit("PageDown");
        assert(named_key("PageDown"@) == Some((121u16, '\u{F72D}')));
    }
}

} // verus!
