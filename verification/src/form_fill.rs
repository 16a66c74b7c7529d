//! `browser_fill_form` as a state machine: the server performs each action
//! (type a field, click submit) and hands the reply back; the machine decides
//! what comes next and writes the report.

use vstd::prelude::*;
use crate::mcp::{FillFormRequest, FormField};
use crate::text::{chars_of, contains_chars, contains_seq, dec, dec_chars, extend_chars, join, join_into, string_of, views};

verus! {

/// What the server does next.
#[derive(Debug)]
pub enum FillAction {
    /// Type `text` into the field at `selector`.
    Type { tab_id: Option<usize>, selector: String, text: String },
    /// Click the submit control.
    Click { tab_id: Option<usize>, selector: String, expect: Option<String> },
    /// Reply to the caller; `is_error` marks a tool error.
    Finish { body: String, is_error: bool },
}

pub enum ActionView {
    Type(Option<usize>, Seq<char>, Seq<char>),
    Click(Option<usize>, Seq<char>, Option<Seq<char>>),
    Finish(Seq<char>, bool),
}

pub open spec fn opt_view(o: Option<String>) -> Option<Seq<char>> {
    match o {
        Some(s) => Some(s@),
        None => None,
    }
}

impl View for FillAction {
    type V = ActionView;

    open spec fn view(&self) -> ActionView {
        match self {
            FillAction::Type { tab_id, selector, text } => ActionView::Type(*tab_id, selector@, text@),
            FillAction::Click { tab_id, selector, expect } => ActionView::Click(
                *tab_id,
                selector@,
                opt_view(*expect),
            ),
            FillAction::Finish { body, is_error } => ActionView::Finish(body@, *is_error),
        }
    }
}

/// A fill in progress.
pub struct FillForm {
    tab_id: Option<usize>,
    fields: Vec<FormField>,
    submit: Option<String>,
    expect: Option<String>,
    /// One report line per field typed so far.
    lines: Vec<Vec<char>>,
    /// Fields whose text stuck.
    filled: usize,
    /// The field whose reply is awaited; `fields.len()` while the submit's
    /// reply is awaited.
    next: usize,
    done: bool,
}

pub struct FillView {
    pub tab_id: Option<usize>,
    pub fields: Seq<(Seq<char>, Seq<char>)>,
    pub submit: Option<Seq<char>>,
    pub expect: Option<Seq<char>>,
    pub lines: Seq<Seq<char>>,
    pub filled: nat,
    pub next: nat,
    pub done: bool,
}

pub open spec fn fields_view(f: Seq<FormField>) -> Seq<(Seq<char>, Seq<char>)> {
    f.map_values(|x: FormField| (x.selector@, x.value@))
}

impl View for FillForm {
    type V = FillView;

    closed spec fn view(&self) -> FillView {
        FillView {
            tab_id: self.tab_id,
            fields: fields_view(self.fields@),
            submit: opt_view(self.submit),
            expect: opt_view(self.expect),
            lines: views(self.lines@),
            filled: self.filled as nat,
            next: self.next as nat,
            done: self.done,
        }
    }
}

/// A typed value the page threw away is reported with this marker.
pub open spec fn stuck(effect: Seq<char>) -> bool {
    !contains_seq(effect, "TEXT DID NOT STICK"@)
}

/// The report line for one field: its outcome and, on success, what changed.
pub open spec fn field_line(sel: Seq<char>, reply: Result<Seq<char>, Seq<char>>) -> Seq<char> {
    match reply {
        Ok(effect) => (if stuck(effect) { "✓"@ } else { "⚠"@ }) + " "@ + sel + effect,
        Err(e) => "✗ "@ + sel + ": "@ + e,
    }
}

/// Typing navigated the tab when the effect reports a URL change.
pub open spec fn navigated(line: Seq<char>) -> bool {
    contains_seq(line, "url → "@)
}

pub open spec fn stop_line() -> Seq<char> {
    "⏹ stopped: filling this field navigated the tab, so the remaining fields would land in a different document and submit would fire on a form you did not fill. Re-snapshot and start again on the new page."@
}

pub open spec fn skipped_submit_line() -> Seq<char> {
    "\nsubmit: SKIPPED — the tab navigated mid-fill"@
}

pub open spec fn empty_fields_error() -> Seq<char> {
    "fields is empty — pass at least one {selector, value}"@
}

/// The final report: how many fields stuck, one line per field, then the
/// submit's outcome.
pub open spec fn report(filled: nat, n: nat, lines: Seq<Seq<char>>, submit_line: Seq<char>) -> Seq<char> {
    "Filled "@ + dec(filled) + "/"@ + dec(n) + " field(s):\n"@ + join(lines, "\n"@) + submit_line
}

pub open spec fn reply_view(r: Result<String, String>) -> Result<Seq<char>, Seq<char>> {
    match r {
        Ok(s) => Ok(s@),
        Err(e) => Err(e@),
    }
}

/// Where a fill starts: an error when there is no field, else typing the first.
pub open spec fn start_spec(
    tab_id: Option<usize>,
    fields: Seq<(Seq<char>, Seq<char>)>,
    submit: Option<Seq<char>>,
    expect: Option<Seq<char>>,
) -> (FillView, ActionView) {
    let s = FillView { tab_id, fields, submit, expect, lines: Seq::empty(), filled: 0, next: 0, done: fields.len() == 0 };
    if fields.len() == 0 {
        (s, ActionView::Finish(empty_fields_error(), true))
    } else {
        (s, ActionView::Type(tab_id, fields[0].0, fields[0].1))
    }
}

/// One step: the reply to the awaited field or submit, and what follows it.
/// A field whose typing navigated the tab, when more fields follow, stops the
/// fill and the submit is skipped; after the last field the submit (if any)
/// is clicked; its reply ends the fill.
pub open spec fn step_spec(s: FillView, reply: Result<Seq<char>, Seq<char>>) -> (FillView, ActionView) {
    let n = s.fields.len();
    if s.next < n {
        let line = field_line(s.fields[s.next as int].0, reply);
        let lines = s.lines.push(line);
        let filled = s.filled + if reply matches Ok(e) && stuck(e) { 1nat } else { 0nat };
        if s.next + 1 < n && navigated(line) {
            let lines2 = lines.push(stop_line());
            let sub = if s.submit is Some { skipped_submit_line() } else { Seq::empty() };
            (
                FillView { lines: lines2, filled, done: true, ..s },
                ActionView::Finish(report(filled, n, lines2, sub), false),
            )
        } else if s.next + 1 < n {
            let k = s.next + 1;
            (
                FillView { lines, filled, next: k, ..s },
                ActionView::Type(s.tab_id, s.fields[k as int].0, s.fields[k as int].1),
            )
        } else {
            match s.submit {
                Some(sub) => (FillView { lines, filled, next: n, ..s }, ActionView::Click(s.tab_id, sub, s.expect)),
                None => (
                    FillView { lines, filled, done: true, ..s },
                    ActionView::Finish(report(filled, n, lines, Seq::empty()), false),
                ),
            }
        }
    } else {
        let sub_line = match reply {
            Ok(effect) => "\nsubmit: "@ + effect,
            Err(e) => "\nsubmit ✗ "@ + s.submit.unwrap_or(Seq::empty()) + ": "@ + e,
        };
        (FillView { done: true, ..s }, ActionView::Finish(report(s.filled, n, s.lines, sub_line), false))
    }
}

/// The machine's own consistency: it has seen at most as many replies as there
/// are fields, and waits for a submit reply only when there is a submit.
pub open spec fn fill_wf(s: FillView) -> bool {
    &&& s.next <= s.fields.len()
    &&& s.filled <= s.lines.len()
    &&& !s.done ==> s.fields.len() > 0 && s.lines.len() == s.next
    &&& !s.done && s.next == s.fields.len() ==> s.submit is Some
}

fn lit(s: &str) -> (r: Vec<char>)
    ensures
        r@ == s@,
{
    chars_of(s)
}

impl FillForm {
    pub closed spec fn wf(&self) -> bool {
        fill_wf(self@) && self.lines@.len() <= usize::MAX
    }

    /// The fill for a request, and its first action.
    pub fn start(req: FillFormRequest) -> (r: (FillForm, FillAction))
        ensures
            r.0.wf(),
            (r.0@, r.1@) == start_spec(req.tab_id, fields_view(req.fields@), opt_view(req.submit), opt_view(req.expect)),
    {
        let n = req.fields.len();
        let first = if n == 0 {
            FillAction::Finish { body: string_of(lit("fields is empty — pass at least one {selector, value}").as_slice()), is_error: true }
        } else {
            FillAction::Type {
                tab_id: req.tab_id,
                selector: req.fields[0].selector.clone(),
                text: req.fields[0].value.clone(),
            }
        };
        let f = FillForm {
            tab_id: req.tab_id,
            fields: req.fields,
            submit: req.submit,
            expect: req.expect,
            lines: Vec::new(),
            filled: 0,
            next: 0,
            done: n == 0,
        };
        assert(views(f.lines@) =~= Seq::<Seq<char>>::empty());
        (f, first)
    }

    /// Whether the fill has ended.
    pub fn is_done(&self) -> (r: bool)
        ensures
            r == self@.done,
    {
        self.done
    }

    fn build_report(filled: usize, n: usize, lines: &Vec<Vec<char>>, submit_line: &[char]) -> (r: String)
        ensures
            r@ == report(filled as nat, n as nat, views(lines@), submit_line@),
    {
        let mut out = lit("Filled ");
        extend_chars(&mut out, dec_chars(filled as u64).as_slice());
        extend_chars(&mut out, lit("/").as_slice());
        extend_chars(&mut out, dec_chars(n as u64).as_slice());
        extend_chars(&mut out, lit(" field(s):\n").as_slice());
        join_into(&mut out, lines, "\n");
        assert(lines@.map_values(|p: Vec<char>| p@) =~= views(lines@));
        extend_chars(&mut out, submit_line);
        string_of(out.as_slice())
    }

    /// Takes the reply to the last action and gives the next one.
    pub fn step(&mut self, reply: Result<String, String>) -> (r: FillAction)
        requires
            old(self).wf(),
            !old(self)@.done,
        ensures
            final(self).wf(),
            (final(self)@, r@) == step_spec(old(self)@, reply_view(reply)),
    {
        let n = self.fields.len();
        let ghost s0 = self@;
        if self.next < n {
            let sel = chars_of(self.fields[self.next].selector.as_str());
            let mut line: Vec<char>;
            let mut ok_stuck = false;
            match &reply {
                Ok(effect) => {
                    let ec = chars_of(effect.as_str());
                    let bad = contains_chars(ec.as_slice(), lit("TEXT DID NOT STICK").as_slice());
                    ok_stuck = !bad;
                    line = if ok_stuck { lit("✓") } else { lit("⚠") };
                    extend_chars(&mut line, lit(" ").as_slice());
                    extend_chars(&mut line, sel.as_slice());
                    extend_chars(&mut line, ec.as_slice());
                },
                Err(e) => {
                    line = lit("✗ ");
                    extend_chars(&mut line, sel.as_slice());
                    extend_chars(&mut line, lit(": ").as_slice());
                    extend_chars(&mut line, chars_of(e.as_str()).as_slice());
                },
            }
            assert(self.fields@[self.next as int].selector@ == s0.fields[s0.next as int].0);
            assert(line@ =~= field_line(s0.fields[s0.next as int].0, reply_view(reply)));
            let nav = contains_chars(line.as_slice(), lit("url → ").as_slice());
            let ghost l0 = self.lines@;
            self.lines.push(line);
            assert(views(self.lines@) =~= views(l0).push(field_line(s0.fields[s0.next as int].0, reply_view(reply))));
            if ok_stuck {
                self.filled = self.filled + 1;
            }
            if self.next + 1 < n && nav {
                let ghost l1 = self.lines@;
                self.lines.push(lit("⏹ stopped: filling this field navigated the tab, so the remaining fields would land in a different document and submit would fire on a form you did not fill. Re-snapshot and start again on the new page."));
                assert(views(self.lines@) =~= views(l1).push(stop_line()));
                self.done = true;
                let sub = if self.submit.is_some() {
                    lit("\nsubmit: SKIPPED — the tab navigated mid-fill")
                } else {
                    Vec::new()
                };
                let body = FillForm::build_report(self.filled, n, &self.lines, sub.as_slice());
                FillAction::Finish { body, is_error: false }
            } else if self.next + 1 < n {
                self.next = self.next + 1;
                FillAction::Type {
                    tab_id: self.tab_id,
                    selector: self.fields[self.next].selector.clone(),
                    text: self.fields[self.next].value.clone(),
                }
            } else {
                match &self.submit {
                    Some(sub) => {
                        self.next = n;
                        let expect = match &self.expect {
                            Some(e) => Some(e.clone()),
                            None => None,
                        };
                        FillAction::Click { tab_id: self.tab_id, selector: sub.clone(), expect }
                    },
                    None => {
                        self.done = true;
                        let body = FillForm::build_report(self.filled, n, &self.lines, Vec::new().as_slice());
                        FillAction::Finish { body, is_error: false }
                    },
                }
            }
        } else {
            let mut sub_line: Vec<char>;
            match &reply {
                Ok(effect) => {
                    sub_line = lit("\nsubmit: ");
                    extend_chars(&mut sub_line, chars_of(effect.as_str()).as_slice());
                },
                Err(e) => {
                    sub_line = lit("\nsubmit ✗ ");
                    match &self.submit {
                        Some(sub) => extend_chars(&mut sub_line, chars_of(sub.as_str()).as_slice()),
                        None => {},
                    }
                    extend_chars(&mut sub_line, lit(": ").as_slice());
                    extend_chars(&mut sub_line, chars_of(e.as_str()).as_slice());
                },
            }
            self.done = true;
            let body = FillForm::build_report(self.filled, n, &self.lines, sub_line.as_slice());
            FillAction::Finish { body, is_error: false }
        }
    }
}

/// Fields are typed in order, and the submit is clicked only once the last
/// field has been typed.
pub proof fn law_fields_in_order_then_submit(s: FillView, reply: Result<Seq<char>, Seq<char>>)
    requires
        fill_wf(s),
        !s.done,
    ensures
        step_spec(s, reply).1 matches ActionView::Type(_, sel, _) ==> s.next + 1 < s.fields.len() && sel
            == s.fields[s.next + 1int].0,
        step_spec(s, reply).1 matches ActionView::Click(_, sel, _) ==> s.next + 1 == s.fields.len() && s.submit
            == Some(sel),
{
}

/// A field whose typing navigated the tab ends the fill when fields remain:
/// nothing more is typed and the submit is skipped.
pub proof fn law_navigation_stops_fill(s: FillView, reply: Result<Seq<char>, Seq<char>>)
    requires
        fill_wf(s),
        !s.done,
        s.next + 1 < s.fields.len(),
        navigated(field_line(s.fields[s.next as int].0, reply)),
    ensures
        step_spec(s, reply).1 is Finish,
        step_spec(s, reply).0.done,
        step_spec(s, reply).0.lines.last() == stop_line(),
{
}

/// Every step either ends the fill or leaves it awaiting one more reply, and
/// the count of fields that stuck never passes the number of fields typed.
pub proof fn law_step_keeps_machine_consistent(s: FillView, reply: Result<Seq<char>, Seq<char>>)
    requires
        fill_wf(s),
        !s.done,
    ensures
        fill_wf(step_spec(s, reply).0),
        step_spec(s, reply).0.done <==> step_spec(s, reply).1 is Finish,
{
}

} // verus!
