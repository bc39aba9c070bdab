//! The embedded store: a map from static path to static bytes, with exact-match
//! lookup, and directories derived from its keys.

use vstd::prelude::*;
use crate::path::{as_folder, folder_of, has_prefix, same_path, starts_with};

verus! {

/// Embedded assets, one entry per path, in the order in which their paths
/// were first registered.
pub struct EmbeddedStore {
    entries: Vec<(&'static str, &'static [u8])>,
}

/// `k` is strictly inside the directory `p`: it lies under the folder form of
/// `p` and is not `p` itself.
pub open spec fn lies_under(k: Seq<char>, p: Seq<char>) -> bool {
    has_prefix(k, as_folder(p)) && k != p
}

impl EmbeddedStore {
    /// The registered paths, in order.
    pub closed spec fn keys(&self) -> Seq<Seq<char>> {
        self.entries@.map_values(|e: (&'static str, &'static [u8])| e.0@)
    }

    /// Each path is registered at most once.
    pub closed spec fn wf(&self) -> bool {
        self.keys().no_duplicates()
    }

    /// The store as a map from path to bytes.
    pub closed spec fn view(&self) -> Map<Seq<char>, Seq<u8>> {
        Map::new(
            |k: Seq<char>| self.keys().contains(k),
            |k: Seq<char>| self.entries@[self.keys().index_of(k)].1@,
        )
    }

    /// The keys are those of the map, each once.
    pub proof fn lemma_keys_domain(&self)
        requires
            self.wf(),
        ensures
            self.keys().no_duplicates(),
            self.keys().to_set() == self.view().dom(),
    {
        assert(self.keys().to_set() =~= self.view().dom());
    }

    proof fn lemma_entry(&self, i: int)
        requires
            self.wf(),
            0 <= i < self.entries@.len(),
        ensures
            self.keys()[i] == self.entries@[i].0@,
            self.view().contains_key(self.entries@[i].0@),
            self.view()[self.entries@[i].0@] == self.entries@[i].1@,
    {
        let k = self.entries@[i].0@;
        assert(self.keys()[i] == k);
        assert(self.keys().contains(k));
        let j = self.keys().index_of(k);
        assert(self.keys()[j] == k);
    }

    /// An empty store.
    pub fn new() -> (r: Self)
        ensures
            r.wf(),
            r.view() == Map::<Seq<char>, Seq<u8>>::empty(),
            r.keys() == Seq::<Seq<char>>::empty(),
    {
        let r = EmbeddedStore { entries: Vec::new() };
        assert(r.keys() =~= Seq::<Seq<char>>::empty());
        assert(r.view() =~= Map::<Seq<char>, Seq<u8>>::empty());
        r
    }

    /// Registers `data` under `path`, replacing what was there before.
    pub fn insert(&mut self, path: &'static str, data: &'static [u8])
        requires
            old(self).wf(),
        ensures
            final(self).wf(),
            final(self).view() == old(self).view().insert(path@, data@),
            old(self).view().contains_key(path@) ==> final(self).keys() == old(self).keys(),
            !old(self).view().contains_key(path@) ==> final(self).keys() == old(self).keys().push(path@),
    {
        let n = self.entries.len();
        let mut i: usize = 0;
        while i < n
            invariant
                n == self.entries@.len(),
                i <= n,
                self.entries@ == old(self).entries@,
                self.wf(),
                forall|j: int| 0 <= j < i ==> self.entries@[j].0@ != path@,
            decreases n - i,
        {
            if same_path(self.entries[i].0, path) {
                let ghost pre = *self;
                self.entries.set(i, (path, data));
                proof {
                    assert(self.keys() =~= pre.keys());
                    pre.lemma_entry(i as int);
                    assert(self.view().dom() =~= pre.view().insert(path@, data@).dom());
                    assert forall|k: Seq<char>| #[trigger] self.view().contains_key(k)
                        implies self.view()[k] == pre.view().insert(path@, data@)[k] by {
                        let j = self.keys().index_of(k);
                        if k == path@ {
                            pre.lemma_entry(i as int);
                            assert(self.keys().index_of(k) == i);
                        } else {
                            assert(self.keys()[j] == k);
                            assert(j != i);
                            assert(self.entries@[j] == pre.entries@[j]);
                        }
                    }
                    assert(self.view() =~= pre.view().insert(path@, data@));
                }
                return;
            }
            i = i + 1;
        }
        let ghost pre = *self;
        self.entries.push((path, data));
        proof {
            assert(self.keys() =~= pre.keys().push(path@));
            assert(!pre.keys().contains(path@)) by {
                if pre.keys().contains(path@) {
                    let j = pre.keys().index_of(path@);
                    assert(pre.keys()[j] == pre.entries@[j].0@);
                }
            }
            assert(self.wf()) by {
                assert forall|a: int, b: int|
                    0 <= a < self.keys().len() && 0 <= b < self.keys().len() && a != b
                    implies self.keys()[a] != self.keys()[b] by {
                    if a < n && b < n {
                        assert(pre.keys()[a] != pre.keys()[b]);
                    } else if a == n {
                        assert(pre.keys()[b] == self.keys()[b]);
                    } else {
                        assert(pre.keys()[a] == self.keys()[a]);
                    }
                }
            }
            assert forall|k: Seq<char>|
                #[trigger] self.view().contains_key(k) == pre.view().insert(path@, data@).contains_key(k)
                by {
                if pre.keys().contains(k) {
                    let j = pre.keys().index_of(k);
                    assert(self.keys()[j] == k);
                }
                if k == path@ {
                    assert(self.keys()[n as int] == k);
                }
            }
            assert forall|k: Seq<char>| #[trigger] self.view().contains_key(k)
                implies self.view()[k] == pre.view().insert(path@, data@)[k] by {
                let j = self.keys().index_of(k);
                if k == path@ {
                    self.lemma_entry(n as int);
                } else {
                    assert(pre.keys().contains(k)) by {
                        assert(self.keys()[j] == k);
                        assert(j < n);
                        assert(pre.keys()[j] == k);
                    }
                    let pj = pre.keys().index_of(k);
                    assert(pre.keys()[pj] == k);
                    assert(self.keys()[pj] == k);
                }
            }
            assert(self.view() =~= pre.view().insert(path@, data@));
        }
    }

    /// The bytes registered under exactly `path`, if any.
    pub fn get(&self, path: &str) -> (r: Option<&'static [u8]>)
        requires
            self.wf(),
        ensures
            r.is_some() == self.view().contains_key(path@),
            r.is_some() ==> r.unwrap()@ == self.view()[path@],
    {
        let n = self.entries.len();
        let mut i: usize = 0;
        while i < n
            invariant
                n == self.entries@.len(),
                i <= n,
                self.wf(),
                forall|j: int| 0 <= j < i ==> self.entries@[j].0@ != path@,
            decreases n - i,
        {
            if same_path(self.entries[i].0, path) {
                proof {
                    self.lemma_entry(i as int);
                }
                return Some(self.entries[i].1);
            }
            i = i + 1;
        }
        proof {
            if self.keys().contains(path@) {
                let j = self.keys().index_of(path@);
                assert(self.keys()[j] == self.entries@[j].0@);
            }
        }
        None
    }

    /// Tells whether some registered path lies strictly inside the directory `path`.
    pub fn has_entry_under(&self, path: &str) -> (r: bool)
        requires
            self.wf(),
        ensures
            r == exists|k: Seq<char>| self.view().contains_key(k) && #[trigger] lies_under(k, path@),
    {
        let folder = folder_of(path);
        let n = self.entries.len();
        let mut i: usize = 0;
        while i < n
            invariant
                n == self.entries@.len(),
                i <= n,
                folder@ == as_folder(path@),
                self.wf(),
                forall|j: int| 0 <= j < i ==> !lies_under(#[trigger] self.entries@[j].0@, path@),
            decreases n - i,
        {
            let k = self.entries[i].0;
            if starts_with(k, folder.as_str()) && !same_path(k, path) {
                proof {
                    self.lemma_entry(i as int);
                    assert(lies_under(k@, path@));
                }
                return true;
            }
            i = i + 1;
        }
        proof {
            assert forall|k: Seq<char>| self.view().contains_key(k) implies !#[trigger] lies_under(k, path@) by {
                let j = self.keys().index_of(k);
                assert(self.keys()[j] == self.entries@[j].0@);
            }
        }
        false
    }

    /// The registered paths that begin with `prefix`, in registration order.
    pub fn keys_with_prefix(&self, prefix: &str) -> (r: Vec<&'static str>)
        requires
            self.wf(),
        ensures
            r@.map_values(|s: &'static str| s@) == self.keys().filter(|k: Seq<char>| has_prefix(k, prefix@)),
    {
        let ghost pred = |k: Seq<char>| has_prefix(k, prefix@);
        let mut r: Vec<&'static str> = Vec::new();
        let n = self.entries.len();
        let mut i: usize = 0;
        while i < n
            invariant
                n == self.entries@.len(),
                i <= n,
                pred == (|k: Seq<char>| has_prefix(k, prefix@)),
                r@.map_values(|s: &'static str| s@) == self.keys().take(i as int).filter(pred),
            decreases n - i,
        {
            let k = self.entries[i].0;
            proof {
                assert(self.keys().take(i + 1).drop_last() =~= self.keys().take(i as int));
                assert(self.keys().take(i + 1).last() == k@);
                reveal(Seq::filter);
            }
            if starts_with(k, prefix) {
                r.push(k);
                assert(r@.map_values(|s: &'static str| s@) =~= self.keys().take(i as int).filter(pred).push(k@));
            }
            i = i + 1;
        }
        assert(self.keys().take(n as int) =~= self.keys());
        r
    }
}

} // verus!
