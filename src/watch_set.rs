//! The set of paths whose changes are being watched.
use vstd::prelude::*;

verus! {

/// A set of paths, each held once.
pub struct WatchSet {
    paths: Vec<String>,
}

impl View for WatchSet {
    type V = Set<Seq<char>>;

    closed spec fn view(&self) -> Set<Seq<char>> {
        self.keys().to_set()
    }
}

impl WatchSet {
    /// The paths, in the order they were added.
    closed spec fn keys(&self) -> Seq<Seq<char>> {
        self.paths@.map_values(|s: String| s@)
    }

    /// No path is held twice.
    pub closed spec fn wf(&self) -> bool {
        self.keys().no_duplicates()
    }

    /// The empty set.
    pub fn new() -> (s: WatchSet)
        ensures
            s.wf(),
            s@ == Set::<Seq<char>>::empty(),
    {
        let s = WatchSet { paths: Vec::new() };
        proof {
            assert(s.keys() =~= Seq::<Seq<char>>::empty());
        }
        s
    }

    /// Where `path` is held, its position.
    fn position(&self, path: &str) -> (r: Option<usize>)
        ensures
            r matches Some(i) ==> i < self.paths@.len() && self.keys()[i as int] == path@,
            r is None ==> !self.keys().contains(path@),
    {
        let key = String::from_str(path);
        let mut i: usize = 0;
        while i < self.paths.len()
            invariant
                i <= self.paths@.len(),
                key@ == path@,
                forall|j: int| 0 <= j < i ==> self.keys()[j] != path@,
            decreases self.paths@.len() - i,
        {
            if self.paths[i] == key {
                return Some(i);
            }
            i = i + 1;
        }
        None
    }

    /// Whether `path` is in the set.
    pub fn contains(&self, path: &str) -> (r: bool)
        ensures
            r == self@.contains(path@),
    {
        self.position(path).is_some()
    }

    /// The number of paths in the set.
    pub fn len(&self) -> (r: usize)
        requires
            self.wf(),
        ensures
            r == self@.len(),
    {
        proof {
            self.keys().unique_seq_to_set();
        }
        self.paths.len()
    }

    /// Adds `path`; returns whether it was absent before.
    pub fn insert(&mut self, path: &str) -> (added: bool)
        requires
            old(self).wf(),
        ensures
            final(self).wf(),
            final(self)@ == old(self)@.insert(path@),
            added == !old(self)@.contains(path@),
    {
        match self.position(path) {
            Some(_) => {
                proof {
                    assert(self@.insert(path@) =~= self@);
                }
                false
            },
            None => {
                let ghost before = self.keys();
                self.paths.push(String::from_str(path));
                proof {
                    assert(self.keys() =~= before.push(path@));
                    before.lemma_push_to_set_commute(path@);
                    assert(self.keys().no_duplicates()) by {
                        assert forall|a: int, b: int|
                            0 <= a < self.keys().len() && 0 <= b < self.keys().len() && a != b
                                implies self.keys()[a] != self.keys()[b] by {
                            if a < before.len() && b < before.len() {
                            } else if a < before.len() {
                                assert(before.contains(before[a]));
                            } else {
                                assert(before.contains(before[b]));
                            }
                        }
                    }
                }
                true
            },
        }
    }

    /// Removes `path`; returns whether it was present before.
    pub fn remove(&mut self, path: &str) -> (removed: bool)
        requires
            old(self).wf(),
        ensures
            final(self).wf(),
            final(self)@ == old(self)@.remove(path@),
            removed == old(self)@.contains(path@),
    {
        match self.position(path) {
            None => {
                proof {
                    assert(self@.remove(path@) =~= self@);
                }
                false
            },
            Some(i) => {
                let ghost before = self.keys();
                self.paths.remove(i);
                proof {
                    let after = self.keys();
                    assert(after =~= before.remove(i as int));
                    assert(after.no_duplicates());
                    assert(self@ =~= before.to_set().remove(path@)) by {
                        assert forall|x: Seq<char>| #[trigger] after.contains(x) <==> (
                            before.contains(x) && x != path@) by {
                            if after.contains(x) {
                                let k = choose|k: int| 0 <= k < after.len() && after[k] == x;
                                if k < i {
                                    assert(before[k] == x);
                                } else {
                                    assert(before[k + 1] == x);
                                }
                            }
                            if before.contains(x) && x != path@ {
                                let k = choose|k: int| 0 <= k < before.len() && before[k] == x;
                                if k < i {
                                    assert(after[k] == x);
                                } else {
                                    assert(after[k - 1] == x);
                                }
                            }
                        }
                    }
                }
                true
            },
        }
    }
}

} // verus!
