//! What the MCP tools decide around the commands they send: defaults and
//! clamps on their parameters, the scripts they run in the page, and the
//! replies they build from what comes back.

use vstd::prelude::*;
use crate::json::{
    json_model, json_parse, json_quote, json_render, json_string_value, parse_json, parse_json_string,
    quote_json, render_json, JsonModel, JsonNumber, JsonValue,
};
use crate::mcp::{fence_untrusted, fence_untrusted_spec, NavigateOutcome};
use crate::text::{chars_of, dec, dec_chars, extend_chars, find_char, find_char_exec, starts_with, starts_with_exec, string_of};

verus! {

fn lit(s: &str) -> (r: Vec<char>)
    ensures
        r@ == s@,
{
    chars_of(s)
}

pub open spec fn opt_view(o: Option<String>) -> Option<Seq<char>> {
    match o {
        Some(s) => Some(s@),
        None => None,
    }
}

// ─────────────────────────────────────────────────────────────────────
// Parameters
// ─────────────────────────────────────────────────────────────────────

/// Characters of page text `browser_get_page_content` returns unless asked.
pub const DEFAULT_PAGE_CONTENT_LIMIT: usize = 20_000;

pub open spec fn clamp(v: int, lo: int, hi: int) -> int {
    if v < lo { lo } else if v > hi { hi } else { v }
}

/// `browser_get_tabs`: 40 tabs unless asked, between 1 and 200.
pub fn tabs_limit(limit: Option<usize>) -> (r: usize)
    ensures
        r == clamp(
            match limit {
                Some(l) => l as int,
                None => 40,
            },
            1,
            200,
        ),
{
    let l = match limit {
        Some(l) => l,
        None => 40,
    };
    if l < 1 {
        1
    } else if l > 200 {
        200
    } else {
        l
    }
}

/// `browser_execute_js`: a 10 s watchdog unless asked, between 1 s and 25 s.
pub fn js_timeout_ms(timeout_ms: Option<u64>) -> (r: u64)
    ensures
        r == clamp(
            match timeout_ms {
                Some(t) => t as int,
                None => 10_000,
            },
            1_000,
            25_000,
        ),
{
    let t = match timeout_ms {
        Some(t) => t,
        None => 10_000,
    };
    if t < 1_000 {
        1_000
    } else if t > 25_000 {
        25_000
    } else {
        t
    }
}

/// `browser_wait`: the `load` event unless asked, and a timeout of 10 s
/// unless asked, capped at 25 s so a maxed-out wait returns a clean
/// "timeout" before the command's own 30 s ceiling.
pub fn wait_params(event: Option<String>, timeout_ms: Option<u64>) -> (r: (String, u64))
    ensures
        r.0@ == match opt_view(event) {
            Some(e) => e,
            None => "load"@,
        },
        r.1 == match timeout_ms {
            Some(t) => if t < 25_000 { t } else { 25_000 },
            None => 10_000,
        },
{
    let e = match event {
        Some(e) => e,
        None => string_of(lit("load").as_slice()),
    };
    let t = match timeout_ms {
        Some(t) => if t < 25_000 {
            t
        } else {
            25_000
        },
        None => 10_000,
    };
    (e, t)
}

/// Console and network listings: 50 entries unless asked, at most 200.
pub fn log_limit(limit: Option<usize>) -> (r: usize)
    ensures
        r == match limit {
            Some(l) => if l < 200 { l } else { 200 },
            None => 50,
        },
{
    match limit {
        Some(l) => if l < 200 {
            l
        } else {
            200
        },
        None => 50,
    }
}

/// `browser_type`'s `mode`: `auto` (the default) or `keys` (keystrokes from
/// the start); anything else is refused.
pub open spec fn type_mode_spec(mode: Option<Seq<char>>) -> Result<bool, Seq<char>> {
    let m = match mode {
        Some(m) => m,
        None => "auto"@,
    };
    if m == "auto"@ {
        Ok(false)
    } else if m == "keys"@ {
        Ok(true)
    } else {
        Err("mode must be \"auto\" or \"keys\", got \""@ + m + "\""@)
    }
}

pub open spec fn result_view(r: Result<bool, String>) -> Result<bool, Seq<char>> {
    match r {
        Ok(b) => Ok(b),
        Err(e) => Err(e@),
    }
}

pub fn type_mode(mode: Option<&str>) -> (r: Result<bool, String>)
    ensures
        result_view(r) == type_mode_spec(match mode {
            Some(m) => Some(m@),
            None => None,
        }),
{
    let m = match mode {
        Some(m) => chars_of(m),
        None => lit("auto"),
    };
    if crate::json::chars_equal(m.as_slice(), lit("auto").as_slice()) {
        Ok(false)
    } else if crate::json::chars_equal(m.as_slice(), lit("keys").as_slice()) {
        Ok(true)
    } else {
        let mut e = lit("mode must be \"auto\" or \"keys\", got \"");
        extend_chars(&mut e, m.as_slice());
        extend_chars(&mut e, lit("\"").as_slice());
        Err(string_of(e.as_slice()))
    }
}

// ─────────────────────────────────────────────────────────────────────
// Dialogs and uploads
// ─────────────────────────────────────────────────────────────────────

/// `browser_handle_dialog`: whether to accept, and how many dialogs to arm
/// (one unless asked, between 1 and 20); an unknown action is refused.
pub open spec fn dialog_plan_spec(action: Seq<char>, count: Option<u32>) -> Result<(bool, u32), Seq<char>> {
    let n = clamp(
        match count {
            Some(c) => c as int,
            None => 1,
        },
        1,
        20,
    ) as u32;
    if action == "accept"@ {
        Ok((true, n))
    } else if action == "dismiss"@ {
        Ok((false, n))
    } else {
        Err("action must be \"accept\" or \"dismiss\", got \""@ + action + "\""@)
    }
}

pub fn dialog_plan(action: &str, count: Option<u32>) -> (r: Result<(bool, u32), String>)
    ensures
        match r {
            Ok(p) => dialog_plan_spec(action@, count) == Ok::<(bool, u32), Seq<char>>(p),
            Err(e) => dialog_plan_spec(action@, count) == Err::<(bool, u32), Seq<char>>(e@),
        },
{
    let c = match count {
        Some(c) => c,
        None => 1,
    };
    let n: u32 = if c < 1 {
        1
    } else if c > 20 {
        20
    } else {
        c
    };
    let a = chars_of(action);
    if crate::json::chars_equal(a.as_slice(), lit("accept").as_slice()) {
        Ok((true, n))
    } else if crate::json::chars_equal(a.as_slice(), lit("dismiss").as_slice()) {
        Ok((false, n))
    } else {
        let mut e = lit("action must be \"accept\" or \"dismiss\", got \"");
        extend_chars(&mut e, a.as_slice());
        extend_chars(&mut e, lit("\"").as_slice());
        Err(string_of(e.as_slice()))
    }
}

pub open spec fn dialog_reply_spec(accept: bool, count: u32) -> Seq<char> {
    "Armed: next "@ + dec(count as nat) + " dialog(s) will be "@ + if accept { "accepted"@ } else { "dismissed"@ }
}

pub fn dialog_reply(accept: bool, count: u32) -> (r: String)
    ensures
        r@ == dialog_reply_spec(accept, count),
{
    let mut out = lit("Armed: next ");
    extend_chars(&mut out, dec_chars(count as u64).as_slice());
    extend_chars(&mut out, lit(" dialog(s) will be ").as_slice());
    if accept {
        extend_chars(&mut out, lit("accepted").as_slice());
    } else {
        extend_chars(&mut out, lit("dismissed").as_slice());
    }
    string_of(out.as_slice())
}

/// `browser_upload_file`: refused without paths or when a path is not a
/// file (`is_file[i]` tells whether `paths[i]` is one; the first that is not
/// is named); else the reply for the armed chooser.
pub open spec fn upload_plan_spec(paths: Seq<Seq<char>>, is_file: Seq<bool>) -> Result<Seq<char>, Seq<char>> {
    if paths.len() == 0 {
        Err("paths must contain at least one file"@)
    } else {
        match first_false(is_file, 0) {
            Some(i) => Err("File not found: "@ + paths[i]),
            None => Ok(
                "Armed: the next file chooser receives "@ + dec(paths.len()) + " file(s). Now click the file input (browser_click)."@,
            ),
        }
    }
}

/// The first index from `i` on where `b` is false.
pub open spec fn first_false(b: Seq<bool>, i: int) -> Option<int>
    decreases b.len() - i,
{
    if i < 0 || i >= b.len() {
        None
    } else if !b[i] {
        Some(i)
    } else {
        first_false(b, i + 1)
    }
}

pub open spec fn strings_view(v: Seq<String>) -> Seq<Seq<char>> {
    v.map_values(|s: String| s@)
}

pub fn upload_plan(paths: &Vec<String>, is_file: &Vec<bool>) -> (r: Result<String, String>)
    requires
        is_file@.len() == paths@.len(),
    ensures
        match r {
            Ok(m) => upload_plan_spec(strings_view(paths@), is_file@) == Ok::<Seq<char>, Seq<char>>(m@),
            Err(e) => upload_plan_spec(strings_view(paths@), is_file@) == Err::<Seq<char>, Seq<char>>(e@),
        },
{
    if paths.len() == 0 {
        return Err(string_of(lit("paths must contain at least one file").as_slice()));
    }
    let mut i: usize = 0;
    while i < is_file.len()
        invariant
            i <= is_file@.len(),
            is_file@.len() == paths@.len(),
            first_false(is_file@, 0) == first_false(is_file@, i as int),
        decreases is_file@.len() - i,
    {
        if !is_file[i] {
            let mut e = lit("File not found: ");
            extend_chars(&mut e, chars_of(paths[i].as_str()).as_slice());
            assert(strings_view(paths@)[i as int] == paths@[i as int]@);
            return Err(string_of(e.as_slice()));
        }
        i = i + 1;
    }
    let mut m = lit("Armed: the next file chooser receives ");
    extend_chars(&mut m, dec_chars(paths.len() as u64).as_slice());
    extend_chars(&mut m, lit(" file(s). Now click the file input (browser_click).").as_slice());
    Ok(string_of(m.as_slice()))
}

// ─────────────────────────────────────────────────────────────────────
// Replies
// ─────────────────────────────────────────────────────────────────────

pub open spec fn switched_reply_spec(tab_id: usize) -> Seq<char> {
    "Switched to tab "@ + dec(tab_id as nat)
}

pub fn switched_reply(tab_id: usize) -> (r: String)
    ensures
        r@ == switched_reply_spec(tab_id),
{
    let mut out = lit("Switched to tab ");
    extend_chars(&mut out, dec_chars(tab_id as u64).as_slice());
    string_of(out.as_slice())
}

pub open spec fn closed_reply_spec(tab_id: usize) -> Seq<char> {
    "Closed tab "@ + dec(tab_id as nat)
}

pub fn closed_reply(tab_id: usize) -> (r: String)
    ensures
        r@ == closed_reply_spec(tab_id),
{
    let mut out = lit("Closed tab ");
    extend_chars(&mut out, dec_chars(tab_id as u64).as_slice());
    string_of(out.as_slice())
}

pub open spec fn scroll_reply_spec(direction: Seq<char>, outcome: Seq<char>) -> Seq<char> {
    "Scrolled "@ + direction + " — "@ + outcome
}

pub fn scroll_reply(direction: &str, outcome: &str) -> (r: String)
    ensures
        r@ == scroll_reply_spec(direction@, outcome@),
{
    let mut out = lit("Scrolled ");
    extend_chars(&mut out, chars_of(direction).as_slice());
    extend_chars(&mut out, lit(" — ").as_slice());
    extend_chars(&mut out, chars_of(outcome).as_slice());
    string_of(out.as_slice())
}

/// `browser_get_page_content`: a leading paging note (`[showing characters
/// …` or `[end of page …`) stays outside the fence, the page text goes in it.
pub open spec fn page_content_reply_spec(content: Seq<char>) -> Seq<char> {
    match find_char(content, '\n') {
        Some(i) => {
            let first = content.take(i);
            if starts_with(first, "[showing characters "@) || starts_with(first, "[end of page "@) {
                first + "\n"@ + fence_untrusted_spec(content.skip(i + 1))
            } else {
                fence_untrusted_spec(content)
            }
        },
        None => fence_untrusted_spec(content),
    }
}

pub fn page_content_reply(content: &str) -> (r: String)
    ensures
        r@ == page_content_reply_spec(content@),
{
    let c = chars_of(content);
    let n = c.len();
    match find_char_exec(c.as_slice(), '\n') {
        Some(i) => {
            let first = crate::sanitize::sub_chars(c.as_slice(), 0, i);
            assert(first@ =~= content@.take(i as int));
            if starts_with_exec(first.as_slice(), "[showing characters ") || starts_with_exec(
                first.as_slice(),
                "[end of page ",
            ) {
                let rest = crate::sanitize::sub_chars(c.as_slice(), i + 1, n);
                assert(rest@ =~= content@.skip(i + 1));
                let fenced = fence_untrusted(string_of(rest.as_slice()).as_str());
                let mut out = first;
                extend_chars(&mut out, lit("\n").as_slice());
                extend_chars(&mut out, chars_of(fenced.as_str()).as_slice());
                string_of(out.as_slice())
            } else {
                fence_untrusted(content)
            }
        },
        None => fence_untrusted(content),
    }
}

/// `browser_navigate`'s note on where the page went.
pub open spec fn navigate_note(download: Option<Seq<char>>, in_place: bool) -> Seq<char> {
    match download {
        Some(name) => "The response was an attachment: '"@ + name
            + "' is being saved to ~/Downloads. The tab kept its previous page — nothing to read or click here."@,
        None => if in_place {
            "Tab navigated; focus unchanged."@
        } else {
            "Background tab opened — reuse this tab_id for follow-up calls; browser_switch_tab shows it to the user."@
        },
    }
}

pub open spec fn navigate_mode(download: Option<Seq<char>>, in_place: bool) -> Seq<char> {
    if download is Some {
        "download"@
    } else if in_place {
        "in_place"@
    } else {
        "new_background_tab"@
    }
}

/// `browser_navigate`'s reply object: the tab, the mode, the note, and the
/// URL and readiness when known.
pub open spec fn navigate_model(tab_id: usize, download: Option<Seq<char>>, url: Option<Seq<char>>, readiness: Option<Seq<char>>, in_place: bool) -> JsonModel {
    let base = seq![
        ("tab_id"@, JsonModel::Number(dec(tab_id as nat))),
        ("mode"@, JsonModel::Str(navigate_mode(download, in_place))),
        ("note"@, JsonModel::Str(navigate_note(download, in_place))),
    ];
    let with_url = match url {
        Some(u) => base.push(("url"@, JsonModel::Str(u))),
        None => base,
    };
    let all = match readiness {
        Some(r) => with_url.push(("readiness"@, JsonModel::Str(r))),
        None => with_url,
    };
    JsonModel::Object(all)
}

fn str_value(s: &[char]) -> (r: JsonValue)
    ensures
        json_model(r) == JsonModel::Str(s@),
{
    JsonValue::Str(string_of(s))
}

fn opt_string(o: &Option<String>) -> (r: Option<Vec<char>>)
    ensures
        match r {
            Some(v) => opt_view(*o) == Some(v@),
            None => opt_view(*o) is None,
        },
{
    match o {
        Some(s) => Some(chars_of(s.as_str())),
        None => None,
    }
}

pub fn navigate_reply(outcome: &NavigateOutcome, in_place: bool) -> (r: String)
    ensures
        r@ == json_render(
            navigate_model(
                outcome.tab_id,
                opt_view(outcome.download),
                opt_view(outcome.url),
                opt_view(outcome.readiness),
                in_place,
            ),
        ),
{
    let download = opt_string(&outcome.download);
    let mode = match &download {
        Some(_) => lit("download"),
        None => if in_place {
            lit("in_place")
        } else {
            lit("new_background_tab")
        },
    };
    let note = match &download {
        Some(name) => {
            let mut n = lit("The response was an attachment: '");
            extend_chars(&mut n, name.as_slice());
            extend_chars(
                &mut n,
                lit("' is being saved to ~/Downloads. The tab kept its previous page — nothing to read or click here.").as_slice(),
            );
            n
        },
        None => if in_place {
            lit("Tab navigated; focus unchanged.")
        } else {
            lit("Background tab opened — reuse this tab_id for follow-up calls; browser_switch_tab shows it to the user.")
        },
    };
    let digits = dec_chars(outcome.tab_id as u64);
    let number = JsonValue::Number(JsonNumber { text: string_of(digits.as_slice()), as_u64: Some(outcome.tab_id as u64) });
    let mut members: Vec<(String, JsonValue)> = Vec::new();
    members.push((string_of(lit("tab_id").as_slice()), number));
    members.push((string_of(lit("mode").as_slice()), str_value(mode.as_slice())));
    members.push((string_of(lit("note").as_slice()), str_value(note.as_slice())));
    let ghost m3 = members@;
    match opt_string(&outcome.url) {
        Some(u) => members.push((string_of(lit("url").as_slice()), str_value(u.as_slice()))),
        None => {},
    }
    let ghost m4 = members@;
    match opt_string(&outcome.readiness) {
        Some(rd) => members.push((string_of(lit("readiness").as_slice()), str_value(rd.as_slice()))),
        None => {},
    }
    let v = JsonValue::Object(members);
    proof {
        let exp = navigate_model(
            outcome.tab_id,
            opt_view(outcome.download),
            opt_view(outcome.url),
            opt_view(outcome.readiness),
            in_place,
        );
        let mm = crate::json::json_members(members@);
        reveal_with_fuel(crate::json::json_members, 6);
        assert(m3.len() == 3);
        assert(crate::json::json_members(m3.take(0)) =~= Seq::<(Seq<char>, JsonModel)>::empty());
        assert(m3.take(1).drop_last() =~= m3.take(0));
        assert(m3.take(2).drop_last() =~= m3.take(1));
        assert(m3.take(3).drop_last() =~= m3.take(2));
        assert(m3.take(3) =~= m3);
        assert(crate::json::json_members(m3) =~= seq![
            ("tab_id"@, JsonModel::Number(dec(outcome.tab_id as nat))),
            ("mode"@, JsonModel::Str(navigate_mode(opt_view(outcome.download), in_place))),
            ("note"@, JsonModel::Str(navigate_note(opt_view(outcome.download), in_place))),
        ]);
        if outcome.url is Some {
            assert(m4.drop_last() =~= m3);
        } else {
            assert(m4 =~= m3);
        }
        if outcome.readiness is Some {
            assert(members@.drop_last() =~= m4);
        } else {
            assert(members@ =~= m4);
        }
        assert(json_model(v) =~~= exp);
    }
    render_json(&v)
}

// ─────────────────────────────────────────────────────────────────────
// Console and network logs
// ─────────────────────────────────────────────────────────────────────

pub open spec fn log_limit_spec(limit: Option<usize>) -> nat {
    match limit {
        Some(l) => if l < 200 { l as nat } else { 200 },
        None => 50,
    }
}

/// The page script that reads the captured console entries: those of one
/// level when asked, the last `limit` of them.
pub open spec fn console_script_spec(level: Option<Seq<char>>, limit: Option<usize>) -> Seq<char> {
    let filter = match level {
        Some(l) => ".filter(function(e){return e.level==="@ + json_quote(l) + "})"@,
        None => Seq::empty(),
    };
    "JSON.stringify((window.__octoweb_console||[])"@ + filter + ".slice(-"@ + dec(log_limit_spec(limit))
        + "))"@
}

pub fn console_script(level: Option<&str>, limit: Option<usize>) -> (r: String)
    ensures
        r@ == console_script_spec(
            match level {
                Some(l) => Some(l@),
                None => None,
            },
            limit,
        ),
{
    let n = log_limit(limit);
    let mut out = lit("JSON.stringify((window.__octoweb_console||[])");
    match level {
        Some(l) => {
            extend_chars(&mut out, lit(".filter(function(e){return e.level===").as_slice());
            extend_chars(&mut out, chars_of(quote_json(l).as_str()).as_slice());
            extend_chars(&mut out, lit("})").as_slice());
        },
        None => {},
    }
    extend_chars(&mut out, lit(".slice(-").as_slice());
    extend_chars(&mut out, dec_chars(n as u64).as_slice());
    extend_chars(&mut out, lit("))").as_slice());
    string_of(out.as_slice())
}

pub open spec fn strip_bodies() -> Seq<char> {
    ".map(function(e){var c={};for(var k in e){if(k!=='body'&&k!=='seq')c[k]=e[k];}return c;})"@
}

/// The page script that reads the captured requests and responses in order:
/// those whose URL holds `filter` when asked, the last `limit` of them, with
/// bodies stripped unless asked for.
pub open spec fn network_script_spec(filter: Option<Seq<char>>, limit: Option<usize>, include_body: Option<bool>) -> Seq<char> {
    let f = match filter {
        Some(x) => ".filter(function(e){return e.url.indexOf("@ + json_quote(x) + ")!==-1})"@,
        None => Seq::empty(),
    };
    let strip = if include_body == Some(true) { Seq::empty() } else { strip_bodies() };
    "JSON.stringify((window.__octoweb_net||[]).concat(window.__octoweb_res||[]).sort(function(a,b){return (a.seq||0)-(b.seq||0)})"@
        + f + ".slice(-"@ + dec(log_limit_spec(limit)) + ")"@ + strip + ")"@
}

pub fn network_script(filter: Option<&str>, limit: Option<usize>, include_body: Option<bool>) -> (r: String)
    ensures
        r@ == network_script_spec(
            match filter {
                Some(x) => Some(x@),
                None => None,
            },
            limit,
            include_body,
        ),
{
    let n = log_limit(limit);
    let with_body = match include_body {
        Some(b) => b,
        None => false,
    };
    let mut out = lit(
        "JSON.stringify((window.__octoweb_net||[]).concat(window.__octoweb_res||[]).sort(function(a,b){return (a.seq||0)-(b.seq||0)})",
    );
    match filter {
        Some(x) => {
            extend_chars(&mut out, lit(".filter(function(e){return e.url.indexOf(").as_slice());
            extend_chars(&mut out, chars_of(quote_json(x).as_str()).as_slice());
            extend_chars(&mut out, lit(")!==-1})").as_slice());
        },
        None => {},
    }
    extend_chars(&mut out, lit(".slice(-").as_slice());
    extend_chars(&mut out, dec_chars(n as u64).as_slice());
    extend_chars(&mut out, lit(")").as_slice());
    if !with_body {
        extend_chars(
            &mut out,
            lit(".map(function(e){var c={};for(var k in e){if(k!=='body'&&k!=='seq')c[k]=e[k];}return c;})").as_slice(),
        );
    }
    extend_chars(&mut out, lit(")").as_slice());
    string_of(out.as_slice())
}

// ─────────────────────────────────────────────────────────────────────
// Scrubbing log entries
// ─────────────────────────────────────────────────────────────────────

/// Which scrubber a log field goes through.
#[derive(Debug, Clone, Copy, PartialEq, Eq, Structural)]
pub enum Scrub {
    /// `sanitize_url`
    Url,
    /// `sanitize_text`
    Text,
}

pub open spec fn scrub_spec(kind: Scrub, s: Seq<char>) -> Seq<char> {
    match kind {
        Scrub::Url => crate::sanitize::sanitize_url_spec(s),
        Scrub::Text => crate::sanitize::sanitize_text_spec(s),
    }
}

/// The first member from `i` on with key `k`.
pub open spec fn first_key(ms: Seq<(Seq<char>, JsonModel)>, k: Seq<char>, i: int) -> Option<int>
    decreases ms.len() - i,
{
    if i < 0 || i >= ms.len() {
        None
    } else if ms[i].0 == k {
        Some(i)
    } else {
        first_key(ms, k, i + 1)
    }
}

/// An entry with its `field` scrubbed, when the entry is an object whose
/// `field` is a string.
pub open spec fn scrub_entry_spec(m: JsonModel, field: Seq<char>, kind: Scrub) -> JsonModel {
    match m {
        JsonModel::Object(ms) => match first_key(ms, field, 0) {
            Some(i) => match ms[i].1 {
                JsonModel::Str(s) => JsonModel::Object(ms.update(i, (field, JsonModel::Str(scrub_spec(kind, s))))),
                _ => m,
            },
            None => m,
        },
        _ => m,
    }
}

/// The log text the script returned, unwrapped when it came back as a JSON
/// string holding JSON.
pub open spec fn log_inner(raw: Seq<char>) -> Seq<char> {
    match json_string_value(raw) {
        Some(s) => s,
        None => raw,
    }
}

/// The log entries with `field` scrubbed in each, printed back as JSON; `[]`
/// when the text is not JSON.
pub open spec fn scrub_entries_spec(raw: Seq<char>, field: Seq<char>, kind: Scrub) -> Seq<char> {
    match json_parse(log_inner(raw)) {
        None => "[]"@,
        Some(v) => json_render(
            match json_model(v) {
                JsonModel::Array(es) => JsonModel::Array(es.map_values(|e: JsonModel| scrub_entry_spec(e, field, kind))),
                m => m,
            },
        ),
    }
}

proof fn lemma_members(s: Seq<(String, JsonValue)>)
    ensures
        crate::json::json_members(s).len() == s.len(),
        forall|j: int| 0 <= j < s.len() ==> #[trigger] crate::json::json_members(s)[j] == (s[j].0@, json_model(s[j].1)),
    decreases s.len(),
{
    if s.len() > 0 {
        lemma_members(s.drop_last());
    }
}

proof fn lemma_models(s: Seq<JsonValue>)
    ensures
        crate::json::json_models(s).len() == s.len(),
        forall|j: int| 0 <= j < s.len() ==> #[trigger] crate::json::json_models(s)[j] == json_model(s[j]),
    decreases s.len(),
{
    if s.len() > 0 {
        lemma_models(s.drop_last());
    }
}

fn run_scrub(kind: Scrub, s: &str) -> (r: String)
    ensures
        r@ == scrub_spec(kind, s@),
{
    match kind {
        Scrub::Url => crate::sanitize::sanitize_url(s),
        Scrub::Text => crate::sanitize::sanitize_text(s),
    }
}

/// One entry with its field scrubbed.
fn scrub_entry(e: JsonValue, field: &[char], kind: Scrub) -> (r: JsonValue)
    ensures
        json_model(r) == scrub_entry_spec(json_model(e), field@, kind),
{
    let ghost m0 = json_model(e);
    match e {
        JsonValue::Object(mut ms) => {
            let ghost mm = crate::json::json_members(ms@);
            proof {
                lemma_members(ms@);
            }
            let mut i: usize = 0;
            let mut found = false;
            while !found && i < ms.len()
                invariant
                    i <= ms@.len(),
                    mm == crate::json::json_members(ms@),
                    mm.len() == ms@.len(),
                    forall|j: int| 0 <= j < ms@.len() ==> #[trigger] mm[j] == (ms@[j].0@, json_model(ms@[j].1)),
                    first_key(mm, field@, 0) == first_key(mm, field@, i as int),
                    found ==> i < ms@.len() && mm[i as int].0 == field@,
                decreases ms@.len() - i, if found { 0int } else { 1int },
            {
                if crate::json::chars_equal(chars_of(ms[i].0.as_str()).as_slice(), field) {
                    assert(mm[i as int].0 == ms@[i as int].0@);
                    found = true;
                } else {
                    i = i + 1;
                }
            }
            if !found {
                return JsonValue::Object(ms);
            }
            assert(first_key(mm, field@, 0) == Some(i as int));
            let scrubbed = match &ms[i].1 {
                JsonValue::Str(s) => Some(run_scrub(kind, s.as_str())),
                _ => None,
            };
            match scrubbed {
                None => JsonValue::Object(ms),
                Some(x) => {
                    let ghost before = ms@;
                    let key = string_of(field);
                    ms.set(i, (key, JsonValue::Str(x)));
                    proof {
                        lemma_members(ms@);
                        let target = mm.update(i as int, (field@, JsonModel::Str(scrub_spec(kind, mm[i as int].1->Str_0))));
                        assert(crate::json::json_members(ms@) =~= target) by {
                            assert forall|j: int| 0 <= j < ms@.len() implies #[trigger] crate::json::json_members(ms@)[j] == target[j] by {
                                if j != i {
                                    assert(ms@[j] == before[j]);
                                }
                            }
                        }
                    }
                    JsonValue::Object(ms)
                },
            }
        },
        other => other,
    }
}

/// The log entries with `field` scrubbed, printed back as JSON (`[]` when the
/// text is not JSON).
pub fn sanitize_json_entries(raw: &str, field: &str, kind: Scrub) -> (r: String)
    ensures
        r@ == scrub_entries_spec(raw@, field@, kind),
{
    let inner: String = match parse_json_string(raw) {
        Some(s) => s,
        None => string_of(chars_of(raw).as_slice()),
    };
    assert(inner@ == log_inner(raw@));
    let fc = chars_of(field);
    match parse_json(inner.as_str()) {
        None => string_of(lit("[]").as_slice()),
        Some(JsonValue::Array(es)) => {
            let ghost ev = es@;
            proof {
                lemma_models(ev);
                assert(json_model(JsonValue::Array(es)) == JsonModel::Array(crate::json::json_models(ev)));
            }
            let mut out: Vec<JsonValue> = Vec::new();
            for e in it: es
                invariant
                    it.seq() == ev,
                    inner@ == log_inner(raw@),
                    json_parse(inner@) matches Some(pv) && json_model(pv) == JsonModel::Array(crate::json::json_models(ev)),
                    crate::json::json_models(ev).len() == ev.len(),
                    forall|j: int| 0 <= j < ev.len() ==> #[trigger] crate::json::json_models(ev)[j] == json_model(ev[j]),
                    fc@ == field@,
                    out@.len() == it.index(),
                    forall|j: int|
                        0 <= j < it.index() ==> json_model(#[trigger] out@[j]) == scrub_entry_spec(
                            json_model(ev[j]),
                            field@,
                            kind,
                        ),
            {
                let ghost k = it.index();
                let x = scrub_entry(e, fc.as_slice(), kind);
                out.push(x);
            }
            proof {
                lemma_models(out@);
                let es_m = crate::json::json_models(ev);
                assert(crate::json::json_models(out@) =~= es_m.map_values(|e: JsonModel| scrub_entry_spec(e, field@, kind)));
            }
            let v = JsonValue::Array(out);
            render_json(&v)
        },
        Some(other) => render_json(&other),
    }
}

/// `browser_console_messages`' reply: the entries with their text scrubbed of
/// card numbers, fenced as page content.
pub fn console_reply(value: &str) -> (r: String)
    ensures
        r@ == fence_untrusted_spec(scrub_entries_spec(value@, "text"@, Scrub::Text)),
{
    let s = sanitize_json_entries(value, "text", Scrub::Text);
    fence_untrusted(s.as_str())
}

/// `browser_network_requests`' reply: URLs scrubbed of secrets, bodies (when
/// included) of card numbers, fenced as page content.
pub fn network_reply(value: &str, include_body: bool) -> (r: String)
    ensures
        r@ == fence_untrusted_spec(
            if include_body {
                scrub_entries_spec(scrub_entries_spec(value@, "url"@, Scrub::Url), "body"@, Scrub::Text)
            } else {
                scrub_entries_spec(value@, "url"@, Scrub::Url)
            },
        ),
{
    let scrubbed = sanitize_json_entries(value, "url", Scrub::Url);
    let scrubbed = if include_body {
        sanitize_json_entries(scrubbed.as_str(), "body", Scrub::Text)
    } else {
        scrubbed
    };
    fence_untrusted(scrubbed.as_str())
}

} // verus!
