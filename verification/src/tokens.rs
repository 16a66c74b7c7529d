//! Workspace tokens: which workspace (and which sidebar session) an agent's
//! requests act for, and how a request's token header picks its scope.

use vstd::prelude::*;
use crate::text::{chars_of, string_of};

verus! {

/// What a token grants. Every token names a workspace; tokens minted for one
/// agent process also name the sidebar session that spawned it.
#[derive(Debug)]
pub struct TokenScope {
    pub workspace_id: String,
    pub session_id: Option<u64>,
}

impl View for TokenScope {
    type V = (Seq<char>, Option<u64>);

    open spec fn view(&self) -> (Seq<char>, Option<u64>) {
        (self.workspace_id@, self.session_id)
    }
}

impl TokenScope {
    pub fn duplicate(&self) -> (r: TokenScope)
        ensures
            r@ == self@,
    {
        TokenScope { workspace_id: self.workspace_id.clone(), session_id: self.session_id }
    }
}

pub type ScopeView = (Seq<char>, Option<u64>);

/// The map the entries hold, token to scope.
pub open spec fn table_map(s: Seq<(String, TokenScope)>) -> Map<Seq<char>, ScopeView>
    decreases s.len(),
{
    if s.len() == 0 {
        Map::empty()
    } else {
        table_map(s.drop_last()).insert(s.last().0@, s.last().1@)
    }
}

pub open spec fn unique_tokens(s: Seq<(String, TokenScope)>) -> bool {
    forall|i: int, j: int| 0 <= i < j < s.len() ==> (#[trigger] s[i]).0@ != (#[trigger] s[j]).0@
}

proof fn lemma_table_map(s: Seq<(String, TokenScope)>)
    requires
        unique_tokens(s),
    ensures
        forall|i: int|
            0 <= i < s.len() ==> table_map(s).contains_key((#[trigger] s[i]).0@) && table_map(s)[s[i].0@] == s[i].1@,
        forall|k: Seq<char>| #[trigger] table_map(s).contains_key(k) ==> exists|i: int| 0 <= i < s.len() && (#[trigger] s[i]).0@ == k,
    decreases s.len(),
{
    if s.len() > 0 {
        let p = s.drop_last();
        assert(unique_tokens(p)) by {
            assert forall|i: int, j: int| 0 <= i < j < p.len() implies (#[trigger] p[i]).0@ != (#[trigger] p[j]).0@ by {
                assert(p[i] == s[i] && p[j] == s[j]);
            }
        }
        lemma_table_map(p);
        assert forall|i: int| 0 <= i < s.len() implies table_map(s).contains_key((#[trigger] s[i]).0@) && table_map(s)[s[i].0@]
            == s[i].1@ by {
            if i < s.len() - 1 {
                assert(p[i] == s[i]);
                assert(s[i].0@ != s[s.len() - 1].0@);
            }
        }
        assert forall|k: Seq<char>| #[trigger] table_map(s).contains_key(k) implies exists|i: int|
            0 <= i < s.len() && (#[trigger] s[i]).0@ == k by {
            if k != s.last().0@ {
                assert(table_map(p).contains_key(k));
                let i = choose|i: int| 0 <= i < p.len() && (#[trigger] p[i]).0@ == k;
                assert(s[i] == p[i]);
            } else {
                assert(s[s.len() - 1].0@ == k);
            }
        }
    }
}

/// The tokens minted this run, each with its scope.
pub struct TokenTable {
    entries: Vec<(String, TokenScope)>,
}

impl View for TokenTable {
    type V = Map<Seq<char>, ScopeView>;

    closed spec fn view(&self) -> Map<Seq<char>, ScopeView> {
        table_map(self.entries@)
    }
}

/// The map without the tokens whose scope satisfies `gone`.
pub open spec fn drop_scopes(m: Map<Seq<char>, ScopeView>, gone: spec_fn(ScopeView) -> bool) -> Map<Seq<char>, ScopeView> {
    Map::new(|k: Seq<char>| m.contains_key(k) && !gone(m[k]), |k: Seq<char>| m[k])
}

pub open spec fn of_session(sid: u64) -> spec_fn(ScopeView) -> bool {
    |s: ScopeView| s.1 == Some(sid)
}

pub open spec fn of_workspace(ws: Seq<char>) -> spec_fn(ScopeView) -> bool {
    |s: ScopeView| s.0 == ws
}

impl TokenTable {
    pub closed spec fn wf(&self) -> bool {
        unique_tokens(self.entries@)
    }

    pub fn new() -> (r: Self)
        ensures
            r.wf(),
            r@ == Map::<Seq<char>, ScopeView>::empty(),
    {
        TokenTable { entries: Vec::new() }
    }

    fn position(&self, token: &[char]) -> (r: Option<usize>)
        requires
            self.wf(),
        ensures
            match r {
                Some(i) => i < self.entries@.len() && self.entries@[i as int].0@ == token@,
                None => forall|i: int| 0 <= i < self.entries@.len() ==> (#[trigger] self.entries@[i]).0@ != token@,
            },
    {
        let mut i: usize = 0;
        while i < self.entries.len()
            invariant
                i <= self.entries@.len(),
                forall|j: int| 0 <= j < i ==> (#[trigger] self.entries@[j]).0@ != token@,
            decreases self.entries@.len() - i,
        {
            if crate::json::chars_equal(chars_of(self.entries[i].0.as_str()).as_slice(), token) {
                return Some(i);
            }
            i = i + 1;
        }
        None
    }

    /// The scope a token grants (`HashMap::get`).
    pub fn lookup(&self, token: &str) -> (r: Option<TokenScope>)
        requires
            self.wf(),
        ensures
            match r {
                Some(s) => self@.contains_key(token@) && self@[token@] == s@,
                None => !self@.contains_key(token@),
            },
    {
        proof {
            lemma_table_map(self.entries@);
        }
        match self.position(chars_of(token).as_slice()) {
            Some(i) => Some(self.entries[i].1.duplicate()),
            None => None,
        }
    }

    /// Maps `token` to `scope`, replacing what it mapped to (`HashMap::insert`).
    pub fn insert(&mut self, token: String, scope: TokenScope)
        requires
            old(self).wf(),
        ensures
            final(self).wf(),
            final(self)@ == old(self)@.insert(token@, scope@),
    {
        proof {
            lemma_table_map(self.entries@);
        }
        let ghost old_entries = self.entries@;
        let ghost tv = token@;
        let ghost sv = scope@;
        match self.position(chars_of(token.as_str()).as_slice()) {
            Some(i) => {
                self.entries.set(i, (token, scope));
                proof {
                    let s = self.entries@;
                    assert(unique_tokens(s)) by {
                        assert forall|a: int, b: int| 0 <= a < b < s.len() implies (#[trigger] s[a]).0@ != (#[trigger] s[b]).0@ by {
                            if a != i && b != i {
                                assert(s[a] == old_entries[a] && s[b] == old_entries[b]);
                            } else if a == i {
                                assert(s[b] == old_entries[b]);
                                assert(old_entries[i as int].0@ != old_entries[b].0@);
                            } else {
                                assert(s[a] == old_entries[a]);
                                assert(old_entries[a].0@ != old_entries[i as int].0@);
                            }
                        }
                    }
                    lemma_table_map(s);
                    assert(table_map(s) =~= table_map(old_entries).insert(tv, sv)) by {
                        assert forall|k: Seq<char>| table_map(s).contains_key(k) <==> table_map(old_entries).insert(tv, sv).contains_key(k) by {
                            if table_map(s).contains_key(k) {
                                let j = choose|j: int| 0 <= j < s.len() && (#[trigger] s[j]).0@ == k;
                                if j != i {
                                    assert(s[j] == old_entries[j]);
                                }
                            }
                            if table_map(old_entries).contains_key(k) {
                                let j = choose|j: int| 0 <= j < old_entries.len() && (#[trigger] old_entries[j]).0@ == k;
                                if j != i {
                                    assert(s[j] == old_entries[j]);
                                } else {
                                    assert(s[i as int].0@ == k);
                                }
                            }
                            if k == tv {
                                assert(s[i as int].0@ == k);
                            }
                        }
                        assert forall|k: Seq<char>| table_map(s).contains_key(k) implies table_map(s)[k] == table_map(old_entries).insert(tv, sv)[k] by {
                            let j = choose|j: int| 0 <= j < s.len() && (#[trigger] s[j]).0@ == k;
                            if j != i {
                                assert(s[j] == old_entries[j]);
                            }
                        }
                    }
                }
            },
            None => {
                self.entries.push((token, scope));
                proof {
                    let s = self.entries@;
                    assert(s.drop_last() =~= old_entries);
                    assert(unique_tokens(s)) by {
                        assert forall|a: int, b: int| 0 <= a < b < s.len() implies (#[trigger] s[a]).0@ != (#[trigger] s[b]).0@ by {
                            assert(s[a] == old_entries[a]);
                            if b < old_entries.len() {
                                assert(s[b] == old_entries[b]);
                            }
                        }
                    }
                }
            },
        }
    }

    /// Removes every token whose scope satisfies `gone` (`HashMap::retain`
    /// with the opposite test); `gone_at[i]` tells it for entry `i`.
    fn drop_where(&mut self, Ghost(gone): Ghost<spec_fn(ScopeView) -> bool>, gone_at: Vec<bool>)
        requires
            old(self).wf(),
            gone_at@.len() == old(self).entries@.len(),
            forall|i: int| 0 <= i < gone_at@.len() ==> gone_at@[i] == gone((#[trigger] old(self).entries@[i]).1@),
        ensures
            final(self).wf(),
            final(self)@ == drop_scopes(old(self)@, gone),
    {
        let ghost old_entries = self.entries@;
        proof {
            lemma_table_map(old_entries);
        }
        let mut kept: Vec<(String, TokenScope)> = Vec::new();
        let mut all: Vec<(String, TokenScope)> = Vec::new();
        std::mem::swap(&mut all, &mut self.entries);
        let mut i: usize = 0;
        let n = gone_at.len();
        for e in it: all
            invariant
                it.seq() == old_entries,
                n == gone_at@.len(),
                gone_at@.len() == old_entries.len(),
                unique_tokens(old_entries),
                forall|j: int| 0 <= j < gone_at@.len() ==> gone_at@[j] == gone((#[trigger] old_entries[j]).1@),
                i == it.index(),
                forall|q: int| 0 <= q < kept@.len() ==> old_entries.contains(#[trigger] kept@[q]) && !gone(kept@[q].1@),
                forall|q: int, j: int|
                    0 <= q < kept@.len() && it.index() <= j < old_entries.len() ==> (#[trigger] kept@[q]).0@
                        != (#[trigger] old_entries[j]).0@,
                unique_tokens(kept@),
                forall|j: int|
                    0 <= j < it.index() && !gone((#[trigger] old_entries[j]).1@) ==> kept@.contains(old_entries[j]),
        {
            let ghost k0 = kept@;
            assert(e == old_entries[i as int]);
            if !gone_at[i] {
                kept.push(e);
                proof {
                    assert forall|q: int, j: int|
                        0 <= q < kept@.len() && i + 1 <= j < old_entries.len() implies (#[trigger] kept@[q]).0@
                            != (#[trigger] old_entries[j]).0@ by {
                        if q < k0.len() {
                            assert(kept@[q] == k0[q]);
                        } else {
                            assert(old_entries[i as int].0@ != old_entries[j].0@);
                        }
                    }
                    assert forall|a: int, b: int| 0 <= a < b < kept@.len() implies (#[trigger] kept@[a]).0@ != (
                    #[trigger] kept@[b]).0@ by {
                        if b < k0.len() {
                            assert(kept@[a] == k0[a] && kept@[b] == k0[b]);
                        } else {
                            assert(kept@[a] == k0[a]);
                        }
                    }
                    assert forall|q: int| 0 <= q < kept@.len() implies old_entries.contains(#[trigger] kept@[q]) && !gone(
                        kept@[q].1@,
                    ) by {
                        if q < k0.len() {
                            assert(kept@[q] == k0[q]);
                        }
                    }
                    assert forall|j: int|
                        0 <= j < i + 1 && !gone((#[trigger] old_entries[j]).1@) implies kept@.contains(old_entries[j]) by {
                        if j < i {
                            let q = choose|q: int| 0 <= q < k0.len() && k0[q] == old_entries[j];
                            assert(kept@[q] == old_entries[j]);
                        } else {
                            assert(kept@[k0.len() as int] == old_entries[j]);
                        }
                    }
                }
            }
            i = i + 1;
        }
        self.entries = kept;
        proof {
            let s = self.entries@;
            lemma_table_map(s);
            let want = drop_scopes(table_map(old_entries), gone);
            assert(table_map(s) =~= want) by {
                assert forall|k: Seq<char>| table_map(s).contains_key(k) <==> want.contains_key(k) by {
                    if table_map(s).contains_key(k) {
                        let q = choose|q: int| 0 <= q < s.len() && (#[trigger] s[q]).0@ == k;
                        let j = choose|j: int| 0 <= j < old_entries.len() && old_entries[j] == s[q];
                        assert(old_entries[j].0@ == k);
                    }
                    if want.contains_key(k) {
                        let j = choose|j: int| 0 <= j < old_entries.len() && (#[trigger] old_entries[j]).0@ == k;
                        assert(!gone(old_entries[j].1@));
                        let q = choose|q: int| 0 <= q < s.len() && s[q] == old_entries[j];
                        assert(s[q].0@ == k);
                    }
                }
                assert forall|k: Seq<char>| table_map(s).contains_key(k) implies table_map(s)[k] == want[k] by {
                    let q = choose|q: int| 0 <= q < s.len() && (#[trigger] s[q]).0@ == k;
                    let j = choose|j: int| 0 <= j < old_entries.len() && old_entries[j] == s[q];
                    assert(old_entries[j].0@ == k);
                }
            }
        }
    }

    /// Drops the workspace's tokens, so a still-running agent cannot keep
    /// driving tabs that no longer exist.
    pub fn unregister_workspace(&mut self, workspace_id: &str)
        requires
            old(self).wf(),
        ensures
            final(self).wf(),
            final(self)@ == drop_scopes(old(self)@, of_workspace(workspace_id@)),
    {
        let ws = chars_of(workspace_id);
        let mut gone_at: Vec<bool> = Vec::new();
        let mut i: usize = 0;
        while i < self.entries.len()
            invariant
                i <= self.entries@.len(),
                ws@ == workspace_id@,
                gone_at@.len() == i,
                forall|j: int| 0 <= j < i ==> gone_at@[j] == (of_workspace(workspace_id@))((#[trigger] self.entries@[j]).1@),
            decreases self.entries@.len() - i,
        {
            let w = chars_of(self.entries[i].1.workspace_id.as_str());
            gone_at.push(crate::json::chars_equal(w.as_slice(), ws.as_slice()));
            i = i + 1;
        }
        self.drop_where(Ghost(of_workspace(workspace_id@)), gone_at);
    }

    /// Drops one session's tokens.
    pub fn unregister_session(&mut self, session_id: u64)
        requires
            old(self).wf(),
        ensures
            final(self).wf(),
            final(self)@ == drop_scopes(old(self)@, of_session(session_id)),
    {
        let mut gone_at: Vec<bool> = Vec::new();
        let mut i: usize = 0;
        while i < self.entries.len()
            invariant
                i <= self.entries@.len(),
                gone_at@.len() == i,
                forall|j: int| 0 <= j < i ==> gone_at@[j] == (of_session(session_id))((#[trigger] self.entries@[j]).1@),
            decreases self.entries@.len() - i,
        {
            let g = match self.entries[i].1.session_id {
                Some(s) => s == session_id,
                None => false,
            };
            gone_at.push(g);
            i = i + 1;
        }
        self.drop_where(Ghost(of_session(session_id)), gone_at);
    }

    /// Starts accepting `token` (freshly minted) for the workspace.
    pub fn register_workspace(&mut self, workspace_id: &str, token: String)
        requires
            old(self).wf(),
        ensures
            final(self).wf(),
            final(self)@ == old(self)@.insert(token@, (workspace_id@, None)),
    {
        let scope = TokenScope { workspace_id: string_of(chars_of(workspace_id).as_slice()), session_id: None };
        self.insert(token, scope);
    }

    /// Starts accepting `token` (freshly minted) for one sidebar session's agent,
    /// replacing any token the session held before, so a reconnect does not
    /// leave the old process able to keep rendering into the chat.
    pub fn register_session(&mut self, workspace_id: &str, session_id: u64, token: String)
        requires
            old(self).wf(),
        ensures
            final(self).wf(),
            final(self)@ == drop_scopes(old(self)@, of_session(session_id)).insert(
                token@,
                (workspace_id@, Some(session_id)),
            ),
    {
        self.unregister_session(session_id);
        let scope = TokenScope { workspace_id: string_of(chars_of(workspace_id).as_slice()), session_id: Some(session_id) };
        self.insert(token, scope);
    }
}

pub open spec fn unknown_token_error() -> Seq<char> {
    "Unknown workspace token — this agent is pointed at a workspace that no longer exists. Restart the assistant to pick up the current one."@
}

pub open spec fn scope_result_view(r: Result<Option<TokenScope>, String>) -> Result<Option<ScopeView>, Seq<char>> {
    match r {
        Ok(Some(s)) => Ok(Some(s@)),
        Ok(None) => Ok(None),
        Err(e) => Err(e@),
    }
}

/// The scope a request runs in: none without a token header (the main loop
/// falls back to the first workspace), the token's scope when it is known,
/// and a refusal for a token it does not know — never the default, since
/// silently acting on the wrong workspace is what the header prevents.
pub open spec fn resolve_scope_spec(table: Map<Seq<char>, ScopeView>, header: Option<Seq<char>>) -> Result<Option<ScopeView>, Seq<char>> {
    match header {
        None => Ok(None),
        Some(t) => if table.contains_key(t) {
            Ok(Some(table[t]))
        } else {
            Err(unknown_token_error())
        },
    }
}

pub fn resolve_scope(table: &TokenTable, header: Option<&str>) -> (r: Result<Option<TokenScope>, String>)
    requires
        table.wf(),
    ensures
        scope_result_view(r) == resolve_scope_spec(
            table@,
            match header {
                Some(h) => Some(h@),
                None => None,
            },
        ),
{
    match header {
        None => Ok(None),
        Some(t) => match table.lookup(t) {
            Some(s) => Ok(Some(s)),
            None => Err(
                string_of(
                    chars_of(
                        "Unknown workspace token — this agent is pointed at a workspace that no longer exists. Restart the assistant to pick up the current one.",
                    ).as_slice(),
                ),
            ),
        },
    }
}

// ─────────────────────────────────────────────────────────────────────
// Laws
// ─────────────────────────────────────────────────────────────────────

/// A token just registered for a workspace resolves to that workspace.
pub proof fn law_registered_token_resolves(m: Map<Seq<char>, ScopeView>, token: Seq<char>, ws: Seq<char>)
    ensures
        resolve_scope_spec(m.insert(token, (ws, None)), Some(token)) == Ok::<Option<ScopeView>, Seq<char>>(
            Some((ws, None)),
        ),
{
}

/// After a session registers, the new token is the only one it holds.
pub proof fn law_one_token_per_session(m: Map<Seq<char>, ScopeView>, ws: Seq<char>, sid: u64, token: Seq<char>)
    ensures
        forall|k: Seq<char>|
            #[trigger] drop_scopes(m, of_session(sid)).insert(token, (ws, Some(sid))).contains_key(k) && drop_scopes(
                m,
                of_session(sid),
            ).insert(token, (ws, Some(sid)))[k].1 == Some(sid) ==> k == token,
{
}

/// After a session or workspace is unregistered, no token of it resolves.
pub proof fn law_unregistered_scopes_are_refused(m: Map<Seq<char>, ScopeView>, ws: Seq<char>, sid: u64, token: Seq<char>)
    ensures
        m.contains_key(token) && m[token].1 == Some(sid) ==> resolve_scope_spec(
            drop_scopes(m, of_session(sid)),
            Some(token),
        ) == Err::<Option<ScopeView>, Seq<char>>(unknown_token_error()),
        m.contains_key(token) && m[token].0 == ws ==> resolve_scope_spec(drop_scopes(m, of_workspace(ws)), Some(token))
            == Err::<Option<ScopeView>, Seq<char>>(unknown_token_error()),
{
}

/// Without a token header the request runs unscoped; with one the table
/// decides alone.
pub proof fn law_missing_header_is_unscoped(m: Map<Seq<char>, ScopeView>)
    ensures
        resolve_scope_spec(m, None) == Ok::<Option<ScopeView>, Seq<char>>(None),
{
}

} // verus!
