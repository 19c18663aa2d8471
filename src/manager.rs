use vstd::prelude::*;

verus! {

/// The registered entries as a map from name to address; a later entry
/// for a name takes the place of an earlier one.
pub open spec fn registry_of<A>(entries: Seq<(String, A)>) -> Map<Seq<char>, A>
    decreases entries.len(),
{
    if entries.len() == 0 {
        Map::empty()
    } else {
        registry_of(entries.drop_last()).insert(entries.last().0@, entries.last().1)
    }
}

/// The process-wide table from aggregate-type name to the address of its
/// dispatcher.
pub struct Manager<A> {
    entries: Vec<(String, A)>,
}

impl<A> Manager<A> {
    pub closed spec fn view(&self) -> Map<Seq<char>, A> {
        registry_of(self.entries@)
    }

    pub closed spec fn wf(&self) -> bool {
        forall|i: int, j: int| 0 <= i < j < self.entries.len() ==> self.entries@[i].0@ != self.entries@[j].0@
    }

    pub fn new() -> (r: Manager<A>)
        ensures
            r.wf(),
            r.view() == Map::<Seq<char>, A>::empty(),
    {
        Manager { entries: Vec::new() }
    }

    /// Registers `addr` under `name`, in place of any address it had.
    pub fn register(self, name: String, addr: A) -> (r: Manager<A>)
        requires
            self.wf(),
        ensures
            r.wf(),
            r.view() == self.view().insert(name@, addr),
    {
        let mut entries = self.entries;
        let ghost old_entries = entries@;
        let mut i: usize = 0;
        while i < entries.len()
            invariant
                0 <= i <= entries.len(),
                entries@ == old_entries,
                old_entries == self.entries@,
                forall|p: int, q: int| 0 <= p < q < old_entries.len() ==> old_entries[p].0@ != old_entries[q].0@,
                forall|k: int| 0 <= k < i ==> entries@[k].0@ != name@,
            decreases entries.len() - i,
        {
            if entries[i].0 == name {
                let ghost n = name@;
                let ghost a = addr;
                let _ = entries.remove(i);
                proof {
                    lemma_remove_unique(old_entries, i as int);
                    assert(entries@ =~= old_entries.remove(i as int));
                }
                entries.push((name, addr));
                proof {
                    assert(entries@.drop_last() =~= old_entries.remove(i as int));
                    assert forall|p: int, q: int| 0 <= p < q < entries.len() implies entries@[p].0@ != entries@[q].0@ by {
                        if q == entries.len() - 1 {
                            if p < i {
                                assert(entries@[p] == old_entries[p]);
                            } else {
                                assert(entries@[p] == old_entries[p + 1]);
                            }
                        } else {
                            if p >= i as int {
                                assert(entries@[p] == old_entries[p + 1]);
                            } else {
                                assert(entries@[p] == old_entries[p]);
                            }
                            if q >= i as int {
                                assert(entries@[q] == old_entries[q + 1]);
                            } else {
                                assert(entries@[q] == old_entries[q]);
                            }
                        }
                    }
                    assert(registry_of(entries@) =~= registry_of(old_entries).insert(n, a));
                }
                return Manager { entries };
            }
            i = i + 1;
        }
        let ghost n = name@;
        entries.push((name, addr));
        proof {
            assert(entries@.drop_last() =~= old_entries);
            assert forall|p: int, q: int| 0 <= p < q < entries.len() implies entries@[p].0@ != entries@[q].0@ by {
                if q == entries.len() - 1 {
                    assert(entries@[p] == old_entries[p]);
                } else {
                    assert(entries@[p] == old_entries[p]);
                    assert(entries@[q] == old_entries[q]);
                }
            }
        }
        Manager { entries }
    }

    /// The address registered under `name`.
    pub fn entity(&self, name: &str) -> (r: Option<&A>)
        requires
            self.wf(),
        ensures
            match r {
                Some(a) => self.view().contains_key(name@) && *a == self.view()[name@],
                None => !self.view().contains_key(name@),
            },
    {
        let key = String::from_str(name);
        let mut i: usize = 0;
        while i < self.entries.len()
            invariant
                0 <= i <= self.entries.len(),
                key@ == name@,
                self.wf(),
                forall|k: int| 0 <= k < i ==> self.entries@[k].0@ != name@,
            decreases self.entries.len() - i,
        {
            if self.entries[i].0 == key {
                proof {
                    lemma_registry_at(self.entries@, i as int);
                }
                return Some(&self.entries[i].1);
            }
            i = i + 1;
        }
        proof {
            lemma_registry_absent(self.entries@, name@);
        }
        None
    }
}

/// With unique names, the entry at `i` is what its name maps to.
proof fn lemma_registry_at<A>(entries: Seq<(String, A)>, i: int)
    requires
        0 <= i < entries.len(),
        forall|p: int, q: int| 0 <= p < q < entries.len() ==> entries[p].0@ != entries[q].0@,
    ensures
        registry_of(entries).contains_key(entries[i].0@),
        registry_of(entries)[entries[i].0@] == entries[i].1,
    decreases entries.len(),
{
    if i < entries.len() - 1 {
        let p = entries.drop_last();
        assert(p[i] == entries[i]);
        lemma_registry_at(p, i);
        assert(entries[i].0@ != entries[entries.len() - 1].0@);
    }
}

/// A name on no entry maps to nothing.
proof fn lemma_registry_absent<A>(entries: Seq<(String, A)>, n: Seq<char>)
    requires
        forall|k: int| 0 <= k < entries.len() ==> entries[k].0@ != n,
    ensures
        !registry_of(entries).contains_key(n),
    decreases entries.len(),
{
    if entries.len() > 0 {
        let p = entries.drop_last();
        assert forall|k: int| 0 <= k < p.len() implies p[k].0@ != n by {
            assert(p[k] == entries[k]);
        }
        lemma_registry_absent(p, n);
        assert(entries[entries.len() - 1].0@ != n);
    }
}

/// Removing the entry at `i` of a table with unique names removes exactly
/// its name.
proof fn lemma_remove_unique<A>(entries: Seq<(String, A)>, i: int)
    requires
        0 <= i < entries.len(),
        forall|p: int, q: int| 0 <= p < q < entries.len() ==> entries[p].0@ != entries[q].0@,
    ensures
        registry_of(entries.remove(i)) =~= registry_of(entries).remove(entries[i].0@),
    decreases entries.len(),
{
    let last = entries.len() - 1;
    if i == last {
        assert(entries.remove(i) =~= entries.drop_last());
        assert forall|k: int| 0 <= k < entries.drop_last().len() implies entries.drop_last()[k].0@ != entries[i].0@ by {
            assert(entries.drop_last()[k] == entries[k]);
        }
        lemma_registry_absent(entries.drop_last(), entries[i].0@);
    } else {
        let p = entries.drop_last();
        assert forall|a: int, b: int| 0 <= a < b < p.len() implies p[a].0@ != p[b].0@ by {
            assert(p[a] == entries[a] && p[b] == entries[b]);
        }
        assert(p[i] == entries[i]);
        lemma_remove_unique(p, i);
        assert(entries.remove(i).drop_last() =~= p.remove(i));
        assert(entries.remove(i).last() == entries.last());
        assert(entries[i].0@ != entries[last].0@);
    }
}

} // verus!
