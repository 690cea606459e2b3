//! The connection registry of one channel: at most one outbound sink per
//! peer key.
use vstd::prelude::*;
use crate::text::{same_text, views};

verus! {

pub open spec fn has_key<S>(s: Seq<(String, S)>, k: Seq<char>) -> bool {
    exists|i: int| 0 <= i < s.len() && (#[trigger] s[i]).0@ == k
}

pub open spec fn key_index<S>(s: Seq<(String, S)>, k: Seq<char>) -> int {
    choose|i: int| 0 <= i < s.len() && (#[trigger] s[i]).0@ == k
}

/// No key appears twice.
pub open spec fn distinct_keys<S>(s: Seq<(String, S)>) -> bool {
    forall|i: int, j: int|
        0 <= i < s.len() && 0 <= j < s.len() && i != j ==> (#[trigger] s[i]).0@ != (
        #[trigger] s[j]).0@
}

/// The sink registered under `k`, if any.
pub open spec fn lookup<S>(s: Seq<(String, S)>, k: Seq<char>) -> Option<S> {
    if has_key(s, k) {
        Some(s[key_index(s, k)].1)
    } else {
        None
    }
}

/// The entries once `sink` is registered under `k`: it replaces the sink
/// already there, or is appended.
pub open spec fn with_entry<S>(s: Seq<(String, S)>, k: String, sink: S) -> Seq<(String, S)> {
    if has_key(s, k@) {
        s.update(key_index(s, k@), (k, sink))
    } else {
        s.push((k, sink))
    }
}

/// The entries once `k` is removed; unchanged where it was absent.
pub open spec fn without_key<S>(s: Seq<(String, S)>, k: Seq<char>) -> Seq<(String, S)> {
    if has_key(s, k) {
        s.remove(key_index(s, k))
    } else {
        s
    }
}

pub struct Registry<S> {
    entries: Vec<(String, S)>,
}

impl<S> Registry<S> {
    pub closed spec fn view(&self) -> Seq<(String, S)> {
        self.entries@
    }

    pub open spec fn wf(&self) -> bool {
        distinct_keys(self.view())
    }

    pub fn new() -> (r: Registry<S>)
        ensures
            r.wf(),
            r.view() == Seq::<(String, S)>::empty(),
    {
        Registry { entries: Vec::new() }
    }

    pub fn len(&self) -> (r: usize)
        ensures
            r == self.view().len(),
    {
        self.entries.len()
    }

    fn find(&self, key: &str) -> (r: Option<usize>)
        requires
            self.wf(),
        ensures
            r is None <==> !has_key(self.view(), key@),
            r matches Some(i) ==> i < self.view().len() && i == key_index(self.view(), key@)
                && self.view()[i as int].0@ == key@,
    {
        let n = self.entries.len();
        let mut i: usize = 0;
        while i < n
            invariant
                n == self.entries@.len(),
                self.wf(),
                i <= n,
                forall|j: int| 0 <= j < i ==> (#[trigger] self.entries@[j]).0@ != key@,
            decreases n - i,
        {
            if same_text(self.entries[i].0.as_str(), key) {
                proof {
                    let k = key_index(self.view(), key@);
                    assert(self.view()[i as int].0@ == key@);
                    if k != i {
                        assert(self.view()[k].0@ != self.view()[i as int].0@);
                    }
                }
                return Some(i);
            }
            i += 1;
        }
        None
    }

    /// Whether a sink is registered under `key`.
    pub fn contains(&self, key: &str) -> (r: bool)
        requires
            self.wf(),
        ensures
            r == has_key(self.view(), key@),
    {
        self.find(key).is_some()
    }

    /// The sink registered under `key`.
    pub fn get(&self, key: &str) -> (r: Option<&S>)
        requires
            self.wf(),
        ensures
            r matches Some(x) ==> lookup(self.view(), key@) == Some(*x),
            r is None ==> lookup(self.view(), key@) is None,
    {
        match self.find(key) {
            Some(i) => Some(&self.entries[i].1),
            None => None,
        }
    }

    /// Registers `sink` under `key`, replacing the sink already there.
    /// Returns whether one was replaced.
    pub fn register(&mut self, key: String, sink: S) -> (r: bool)
        requires
            old(self).wf(),
        ensures
            final(self).wf(),
            r == has_key(old(self).view(), key@),
            final(self).view() == with_entry(old(self).view(), key, sink),
    {
        let ghost old_entries = self.entries@;
        let ghost k = key;
        match self.find(key.as_str()) {
            Some(i) => {
                self.entries.set(i, (key, sink));
                proof {
                    let s = self.entries@;
                    assert forall|x: int, y: int|
                        0 <= x < s.len() && 0 <= y < s.len() && x != y implies (#[trigger] s[x]).0@
                        != (#[trigger] s[y]).0@ by {
                        assert(old_entries[x].0@ != old_entries[y].0@);
                    }
                }
                true
            },
            None => {
                self.entries.push((key, sink));
                proof {
                    let s = self.entries@;
                    assert forall|x: int, y: int|
                        0 <= x < s.len() && 0 <= y < s.len() && x != y implies (#[trigger] s[x]).0@
                        != (#[trigger] s[y]).0@ by {
                        if x < old_entries.len() && y < old_entries.len() {
                            assert(old_entries[x].0@ != old_entries[y].0@);
                        } else if x < old_entries.len() {
                            assert(old_entries[x] == s[x]);
                        } else {
                            assert(old_entries[y] == s[y]);
                        }
                    }
                }
                false
            },
        }
    }

    /// Registers `sink` under `key` only where no sink is registered there
    /// yet; otherwise the registry is left as it was and `sink` is handed
    /// back, so that a second connection to one peer is not kept.
    pub fn register_new(&mut self, key: String, sink: S) -> (r: Option<S>)
        requires
            old(self).wf(),
        ensures
            final(self).wf(),
            has_key(old(self).view(), key@) ==> r == Some(sink) && final(self).view() == old(
                self,
            ).view(),
            !has_key(old(self).view(), key@) ==> r is None && final(self).view() == old(
                self,
            ).view().push((key, sink)),
    {
        if self.contains(key.as_str()) {
            return Some(sink);
        }
        self.register(key, sink);
        None
    }

    /// Removes the sink registered under `key` and hands it back. Removing
    /// an absent key changes nothing.
    pub fn remove(&mut self, key: &str) -> (r: Option<S>)
        requires
            old(self).wf(),
        ensures
            final(self).wf(),
            r == lookup(old(self).view(), key@),
            final(self).view() == without_key(old(self).view(), key@),
    {
        let ghost old_entries = self.entries@;
        match self.find(key) {
            Some(i) => {
                let (_, sink) = self.entries.remove(i);
                proof {
                    let s = self.entries@;
                    assert forall|x: int, y: int|
                        0 <= x < s.len() && 0 <= y < s.len() && x != y implies (#[trigger] s[x]).0@
                        != (#[trigger] s[y]).0@ by {
                        let ox = if x < i { x } else { x + 1 };
                        let oy = if y < i { y } else { y + 1 };
                        assert(s[x] == old_entries[ox]);
                        assert(s[y] == old_entries[oy]);
                        assert(old_entries[ox].0@ != old_entries[oy].0@);
                    }
                }
                Some(sink)
            },
            None => None,
        }
    }

    /// The registered keys, in registration order.
    pub fn keys(&self) -> (r: Vec<String>)
        ensures
            views(r@) == self.view().map_values(|e: (String, S)| e.0@),
    {
        let mut out: Vec<String> = Vec::new();
        let n = self.entries.len();
        let mut i: usize = 0;
        while i < n
            invariant
                n == self.entries@.len(),
                i <= n,
                views(out@) == self.entries@.subrange(0, i as int).map_values(
                    |e: (String, S)| e.0@,
                ),
            decreases n - i,
        {
            let ghost before = views(out@);
            out.push(self.entries[i].0.clone());
            assert(views(out@) =~= before.push(self.entries@[i as int].0@));
            assert(self.entries@.subrange(0, i + 1) =~= self.entries@.subrange(0, i as int).push(
                self.entries@[i as int],
            ));
            assert(views(out@) =~= self.entries@.subrange(0, i + 1).map_values(
                |e: (String, S)| e.0@,
            ));
            i += 1;
        }
        assert(self.entries@.subrange(0, n as int) =~= self.entries@);
        out
    }

    /// Takes every entry out, leaving the registry empty; used to close
    /// every connection at once.
    pub fn drain(&mut self) -> (r: Vec<(String, S)>)
        requires
            old(self).wf(),
        ensures
            final(self).wf(),
            r@ == old(self).view(),
            final(self).view() == Seq::<(String, S)>::empty(),
    {
        let mut out: Vec<(String, S)> = Vec::new();
        core::mem::swap(&mut out, &mut self.entries);
        out
    }
}

/// Registering then removing a key leaves no sink under it, and removing a
/// key that is already absent changes nothing.
pub proof fn lemma_remove_idempotent<S>(s: Seq<(String, S)>, k: Seq<char>)
    requires
        distinct_keys(s),
    ensures
        !has_key(without_key(s, k), k),
        without_key(without_key(s, k), k) == without_key(s, k),
{
    if has_key(s, k) {
        let i = key_index(s, k);
        let t = s.remove(i);
        if has_key(t, k) {
            let j = choose|j: int| 0 <= j < t.len() && (#[trigger] t[j]).0@ == k;
            let oj = if j < i { j } else { j + 1 };
            assert(t[j] == s[oj]);
        }
    }
}

} // verus!
