use vstd::prelude::*;

verus! {

/// What a drain leaves and hands out: `result` holds each path of `before`
/// exactly once, and nothing stays tracked.
pub open spec fn spec_drained(before: Set<Seq<char>>, result: Seq<Seq<char>>, after: Set<Seq<char>>) -> bool {
    &&& after.is_empty()
    &&& result.to_set() == before
    &&& result.no_duplicates()
}

/// The set of temporary files that have been created and not yet deleted.
pub struct Inventory {
    paths: Vec<String>,
}

impl Inventory {
    /// The paths held, in the order they were tracked.
    pub closed spec fn entries(&self) -> Seq<Seq<char>> {
        self.paths@.map_values(|p: String| p@)
    }

    pub closed spec fn view(&self) -> Set<Seq<char>> {
        self.entries().to_set()
    }

    /// No path is held twice.
    pub closed spec fn wf(&self) -> bool {
        self.entries().no_duplicates()
    }

    pub fn new() -> (r: Self)
        ensures
            r.wf(),
            r.view() == Set::<Seq<char>>::empty(),
    {
        let r = Inventory { paths: Vec::new() };
        proof {
            assert(r.entries() =~= Seq::<Seq<char>>::empty());
        }
        r
    }

    /// Position of `path` among the held paths.
    fn find(&self, path: &String) -> (r: Option<usize>)
        ensures
            r matches Some(i) ==> i < self.entries().len() && self.entries()[i as int] == path@,
            r is None ==> !self.entries().contains(path@),
    {
        let mut i: usize = 0;
        while i < self.paths.len()
            invariant
                i <= self.paths@.len(),
                forall|j: int| 0 <= j < i ==> self.entries()[j] != path@,
            decreases self.paths@.len() - i,
        {
            if self.paths[i] == *path {
                return Some(i);
            }
            i += 1;
        }
        None
    }

    pub fn contains(&self, path: &String) -> (r: bool)
        ensures
            r == self.view().contains(path@),
    {
        self.find(path).is_some()
    }

    pub fn len(&self) -> (r: usize)
        requires
            self.wf(),
        ensures
            r == self.view().len(),
    {
        proof {
            self.entries().unique_seq_to_set();
        }
        self.paths.len()
    }

    /// Starts tracking `path`; tracking a path twice holds it once.
    pub fn track(&mut self, path: String)
        requires
            old(self).wf(),
        ensures
            final(self).wf(),
            final(self).view() == old(self).view().insert(path@),
    {
        if self.find(&path).is_none() {
            let ghost before = self.entries();
            let ghost p = path@;
            self.paths.push(path);
            proof {
                assert(self.entries() =~= before.push(p));
                before.lemma_push_to_set_commute(p);
                assert(self.entries().no_duplicates()) by {
                    assert forall|a: int, b: int|
                        0 <= a < b < self.entries().len() implies self.entries()[a] != self.entries()[b] by {
                        if b == before.len() {
                            assert(before.contains(before[a]));
                        }
                    }
                }
            }
        } else {
            proof {
                assert(self.view() =~= self.view().insert(path@));
            }
        }
    }

    /// Stops tracking `path`; a path that is not tracked leaves it unchanged.
    pub fn untrack(&mut self, path: &String)
        requires
            old(self).wf(),
        ensures
            final(self).wf(),
            final(self).view() == old(self).view().remove(path@),
    {
        match self.find(path) {
            Some(i) => {
                let ghost before = self.entries();
                self.paths.remove(i);
                proof {
                    let after = self.entries();
                    assert(after =~= before.remove(i as int));
                    assert forall|a: int, b: int|
                        0 <= a < b < after.len() implies after[a] != after[b] by {
                        let a2 = if a < i { a } else { a + 1 };
                        let b2 = if b < i { b } else { b + 1 };
                        assert(before[a2] == after[a] && before[b2] == after[b]);
                    }
                    assert forall|x: Seq<char>| after.to_set().contains(x) <==> before.to_set().remove(path@).contains(x) by {
                        if after.contains(x) {
                            let k = choose|k: int| 0 <= k < after.len() && after[k] == x;
                            let k2 = if k < i { k } else { k + 1 };
                            assert(before[k2] == x);
                            assert(k2 != i);
                        }
                        if before.contains(x) && x != path@ {
                            let k = choose|k: int| 0 <= k < before.len() && before[k] == x;
                            assert(k != i);
                            let k1 = if k < i { k } else { k - 1 };
                            assert(after[k1] == x);
                        }
                    }
                    assert(self.view() =~= before.to_set().remove(path@));
                }
            },
            None => {
                proof {
                    assert(self.view() =~= self.view().remove(path@));
                }
            },
        }
    }

    /// Removes every tracked path and hands them out, each once.
    pub fn drain_all(&mut self) -> (r: Vec<String>)
        requires
            old(self).wf(),
        ensures
            final(self).wf(),
            spec_drained(old(self).view(), r@.map_values(|p: String| p@), final(self).view()),
    {
        let mut r: Vec<String> = Vec::new();
        std::mem::swap(&mut r, &mut self.paths);
        proof {
            assert(self.entries() =~= Seq::<Seq<char>>::empty());
            assert(self.view() =~= Set::<Seq<char>>::empty());
        }
        r
    }
}

/// Draining twice in succession: the second drain hands out nothing and the
/// inventory stays empty.
pub proof fn lemma_drain_twice(
    before: Set<Seq<char>>,
    first: Seq<Seq<char>>,
    middle: Set<Seq<char>>,
    second: Seq<Seq<char>>,
    after: Set<Seq<char>>,
)
    requires
        spec_drained(before, first, middle),
        spec_drained(middle, second, after),
    ensures
        second.len() == 0,
        after.is_empty(),
        first.to_set() == before,
{
    if second.len() > 0 {
        assert(second.to_set().contains(second[0]));
    }
}

} // verus!
