//! The per-WebView table behind the navigation-error hooks: which callback a
//! failed load in a given WebView (keyed by its pointer) is reported to.

use vstd::prelude::*;

verus! {

/// Callbacks keyed by WebView pointer.
pub struct Registry<C> {
    entries: Vec<(usize, C)>,
}

pub open spec fn entries_map<C>(s: Seq<(usize, C)>) -> Map<usize, C>
    decreases s.len(),
{
    if s.len() == 0 {
        Map::empty()
    } else {
        entries_map(s.drop_last()).insert(s.last().0, s.last().1)
    }
}

pub open spec fn unique_keys<C>(s: Seq<(usize, C)>) -> bool {
    forall|i: int, j: int| 0 <= i < j < s.len() ==> (#[trigger] s[i]).0 != (#[trigger] s[j]).0
}

proof fn lemma_entries_map<C>(s: Seq<(usize, C)>)
    requires
        unique_keys(s),
    ensures
        forall|i: int| 0 <= i < s.len() ==> entries_map(s).contains_key((#[trigger] s[i]).0) && entries_map(s)[s[i].0] == s[i].1,
        forall|k: usize| #[trigger] entries_map(s).contains_key(k) ==> exists|i: int| 0 <= i < s.len() && (#[trigger] s[i]).0 == k,
    decreases s.len(),
{
    if s.len() > 0 {
        let p = s.drop_last();
        assert(unique_keys(p)) by {
            assert forall|i: int, j: int| 0 <= i < j < p.len() implies (#[trigger] p[i]).0 != (#[trigger] p[j]).0 by {
                assert(p[i] == s[i] && p[j] == s[j]);
            }
        }
        lemma_entries_map(p);
        assert forall|i: int| 0 <= i < s.len() implies entries_map(s).contains_key((#[trigger] s[i]).0) && entries_map(s)[s[i].0]
            == s[i].1 by {
            if i < s.len() - 1 {
                assert(p[i] == s[i]);
                assert(s[i].0 != s[s.len() - 1].0);
            }
        }
        assert forall|k: usize| #[trigger] entries_map(s).contains_key(k) implies exists|i: int|
            0 <= i < s.len() && (#[trigger] s[i]).0 == k by {
            if k != s.last().0 {
                assert(entries_map(p).contains_key(k));
                let i = choose|i: int| 0 <= i < p.len() && (#[trigger] p[i]).0 == k;
                assert(s[i] == p[i]);
            } else {
                assert(s[s.len() - 1].0 == k);
            }
        }
    }
}

impl<C> View for Registry<C> {
    type V = Map<usize, C>;

    closed spec fn view(&self) -> Map<usize, C> {
        entries_map(self.entries@)
    }
}

impl<C> Registry<C> {
    pub closed spec fn wf(&self) -> bool {
        unique_keys(self.entries@)
    }

    pub fn new() -> (r: Self)
        ensures
            r.wf(),
            r@ == Map::<usize, C>::empty(),
    {
        Registry { entries: Vec::new() }
    }

    fn position(&self, ptr: usize) -> (r: Option<usize>)
        ensures
            match r {
                Some(i) => i < self.entries@.len() && self.entries@[i as int].0 == ptr,
                None => forall|i: int| 0 <= i < self.entries@.len() ==> (#[trigger] self.entries@[i]).0 != ptr,
            },
    {
        let mut i: usize = 0;
        while i < self.entries.len()
            invariant
                i <= self.entries@.len(),
                forall|j: int| 0 <= j < i ==> (#[trigger] self.entries@[j]).0 != ptr,
            decreases self.entries@.len() - i,
        {
            if self.entries[i].0 == ptr {
                return Some(i);
            }
            i = i + 1;
        }
        None
    }

    /// Registers the callback for a WebView, replacing an earlier one.
    pub fn register(&mut self, ptr: usize, callback: C)
        requires
            old(self).wf(),
        ensures
            final(self).wf(),
            final(self)@ == old(self)@.insert(ptr, callback),
    {
        let ghost old_entries = self.entries@;
        proof {
            lemma_entries_map(old_entries);
        }
        match self.position(ptr) {
            Some(i) => {
                self.entries.set(i, (ptr, callback));
                proof {
                    let s = self.entries@;
                    assert(unique_keys(s)) by {
                        assert forall|a: int, b: int| 0 <= a < b < s.len() implies (#[trigger] s[a]).0 != (#[trigger] s[b]).0 by {
                            if a != i {
                                assert(s[a] == old_entries[a]);
                            }
                            if b != i {
                                assert(s[b] == old_entries[b]);
                            }
                        }
                    }
                    lemma_entries_map(s);
                    assert(entries_map(s) =~= entries_map(old_entries).insert(ptr, callback)) by {
                        assert forall|k: usize| entries_map(s).contains_key(k) <==> entries_map(old_entries).insert(ptr, callback).contains_key(k) by {
                            if entries_map(s).contains_key(k) {
                                let j = choose|j: int| 0 <= j < s.len() && (#[trigger] s[j]).0 == k;
                                if j != i {
                                    assert(s[j] == old_entries[j]);
                                }
                            }
                            if entries_map(old_entries).contains_key(k) {
                                let j = choose|j: int| 0 <= j < old_entries.len() && (#[trigger] old_entries[j]).0 == k;
                                if j != i {
                                    assert(s[j] == old_entries[j]);
                                } else {
                                    assert(s[i as int].0 == k);
                                }
                            }
                            if k == ptr {
                                assert(s[i as int].0 == k);
                            }
                        }
                        assert forall|k: usize| entries_map(s).contains_key(k) implies entries_map(s)[k] == entries_map(old_entries).insert(ptr, callback)[k] by {
                            let j = choose|j: int| 0 <= j < s.len() && (#[trigger] s[j]).0 == k;
                            if j != i {
                                assert(s[j] == old_entries[j]);
                            }
                        }
                    }
                }
            },
            None => {
                self.entries.push((ptr, callback));
                proof {
                    let s = self.entries@;
                    assert(s.drop_last() =~= old_entries);
                    assert(unique_keys(s)) by {
                        assert forall|a: int, b: int| 0 <= a < b < s.len() implies (#[trigger] s[a]).0 != (#[trigger] s[b]).0 by {
                            assert(s[a] == old_entries[a]);
                            if b < old_entries.len() {
                                assert(s[b] == old_entries[b]);
                            }
                        }
                    }
                }
            },
        }
    }

    /// Removes the callback of a WebView that is being destroyed.
    pub fn unregister(&mut self, ptr: usize)
        requires
            old(self).wf(),
        ensures
            final(self).wf(),
            final(self)@ == old(self)@.remove(ptr),
    {
        let ghost old_entries = self.entries@;
        proof {
            lemma_entries_map(old_entries);
        }
        match self.position(ptr) {
            Some(i) => {
                self.entries.remove(i);
                proof {
                    let s = self.entries@;
                    assert(s =~= old_entries.remove(i as int));
                    assert(unique_keys(s)) by {
                        assert forall|a: int, b: int| 0 <= a < b < s.len() implies (#[trigger] s[a]).0 != (#[trigger] s[b]).0 by {
                            let oa = if a < i { a } else { a + 1 };
                            let ob = if b < i { b } else { b + 1 };
                            assert(s[a] == old_entries[oa] && s[b] == old_entries[ob]);
                        }
                    }
                    lemma_entries_map(s);
                    assert(entries_map(s) =~= entries_map(old_entries).remove(ptr)) by {
                        assert forall|k: usize| entries_map(s).contains_key(k) <==> entries_map(old_entries).remove(ptr).contains_key(k) by {
                            if entries_map(s).contains_key(k) {
                                let j = choose|j: int| 0 <= j < s.len() && (#[trigger] s[j]).0 == k;
                                let oj = if j < i { j } else { j + 1 };
                                assert(s[j] == old_entries[oj]);
                                assert(old_entries[oj].0 != old_entries[i as int].0);
                            }
                            if entries_map(old_entries).contains_key(k) && k != ptr {
                                let j = choose|j: int| 0 <= j < old_entries.len() && (#[trigger] old_entries[j]).0 == k;
                                assert(j != i);
                                let nj = if j < i { j } else { j - 1 };
                                assert(s[nj] == old_entries[j]);
                            }
                        }
                        assert forall|k: usize| entries_map(s).contains_key(k) implies entries_map(s)[k] == entries_map(old_entries).remove(ptr)[k] by {
                            let j = choose|j: int| 0 <= j < s.len() && (#[trigger] s[j]).0 == k;
                            let oj = if j < i { j } else { j + 1 };
                            assert(s[j] == old_entries[oj]);
                            assert(old_entries[oj].0 != old_entries[i as int].0);
                        }
                    }
                }
            },
            None => {
                assert(entries_map(old_entries) =~= entries_map(old_entries).remove(ptr));
            },
        }
    }

    /// The callback registered for a WebView.
    pub fn get(&self, ptr: usize) -> (r: Option<&C>)
        requires
            self.wf(),
        ensures
            match r {
                Some(c) => self@.contains_key(ptr) && self@[ptr] == *c,
                None => !self@.contains_key(ptr),
            },
    {
        proof {
            lemma_entries_map(self.entries@);
        }
        match self.position(ptr) {
            Some(i) => Some(&self.entries[i].1),
            None => None,
        }
    }
}

/// A load failing in a registered WebView reaches the callback registered
/// last for it; after `unregister` it reaches none.
pub proof fn law_last_registration_wins<C>(m: Map<usize, C>, ptr: usize, first: C, second: C)
    ensures
        m.insert(ptr, first).insert(ptr, second)[ptr] == second,
        !m.insert(ptr, first).remove(ptr).contains_key(ptr),
{
}

} // verus!
