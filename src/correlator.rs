use vstd::prelude::*;

verus! {

/// The map that a list of (id, slot) entries stands for.
pub open spec fn entries_map<T>(s: Seq<(String, T)>) -> Map<Seq<char>, T>
    decreases s.len(),
{
    if s.len() == 0 {
        Map::empty()
    } else {
        entries_map(s.drop_last()).insert(s.last().0@, s.last().1)
    }
}

/// No two entries share an id.
pub open spec fn ids_distinct<T>(s: Seq<(String, T)>) -> bool {
    forall|i: int, k: int| 0 <= i < k < s.len() ==> (#[trigger] s[i]).0@ != (#[trigger] s[k]).0@
}

proof fn lemma_entries_map_domain<T>(s: Seq<(String, T)>, id: Seq<char>)
    ensures
        entries_map(s).contains_key(id) <==> exists|i: int| 0 <= i < s.len() && (#[trigger] s[i]).0@ == id,
    decreases s.len(),
{
    if s.len() > 0 {
        lemma_entries_map_domain(s.drop_last(), id);
        if entries_map(s.drop_last()).contains_key(id) {
            let i = choose|i: int| 0 <= i < s.drop_last().len() && (#[trigger] s.drop_last()[i]).0@ == id;
            assert(s[i] == s.drop_last()[i]);
        }
        if exists|i: int| 0 <= i < s.len() && (#[trigger] s[i]).0@ == id {
            let i = choose|i: int| 0 <= i < s.len() && (#[trigger] s[i]).0@ == id;
            if i < s.len() - 1 {
                assert(s.drop_last()[i] == s[i]);
            }
        }
    }
}

proof fn lemma_entries_map_remove<T>(s: Seq<(String, T)>, i: int)
    requires
        0 <= i < s.len(),
        ids_distinct(s),
    ensures
        entries_map(s.remove(i)) =~= entries_map(s).remove(s[i].0@),
        entries_map(s)[s[i].0@] == s[i].1,
    decreases s.len(),
{
    let k = s[i].0@;
    if i == s.len() - 1 {
        assert(s.remove(i) =~= s.drop_last());
        assert forall|m: int| 0 <= m < s.drop_last().len() implies (#[trigger] s.drop_last()[m]).0@ != k by {
            assert(s.drop_last()[m] == s[m]);
        }
        lemma_entries_map_domain(s.drop_last(), k);
    } else {
        let d = s.drop_last();
        assert(ids_distinct(d)) by {
            assert forall|a: int, b: int| 0 <= a < b < d.len() implies (#[trigger] d[a]).0@ != (#[trigger] d[b]).0@ by {
                assert(d[a] == s[a] && d[b] == s[b]);
            }
        }
        assert(d[i] == s[i]);
        lemma_entries_map_remove(d, i);
        assert(s.remove(i) =~= d.remove(i).push(s.last()));
        assert(s.remove(i).drop_last() =~= d.remove(i));
        assert(s.last() == s[s.len() - 1]);
        assert(s.last().0@ != k);
    }
}

/// The control requests that await an answer: each request id with the slot
/// through which its answer is handed over.
pub struct PendingTable<T> {
    entries: Vec<(String, T)>,
}

impl<T> PendingTable<T> {
    /// The slot of each pending request id.
    pub closed spec fn view(&self) -> Map<Seq<char>, T> {
        entries_map(self.entries@)
    }

    /// Each id stands in the table at most once.
    pub closed spec fn wf(&self) -> bool {
        ids_distinct(self.entries@)
    }

    /// An empty table.
    pub fn new() -> (r: Self)
        ensures
            r.wf(),
            r@ == Map::<Seq<char>, T>::empty(),
    {
        PendingTable { entries: Vec::new() }
    }

    /// The number of pending requests.
    pub fn len(&self) -> (r: usize)
        requires
            self.wf(),
        ensures
            r == self@.len(),
    {
        proof {
            self.lemma_len();
        }
        self.entries.len()
    }

    proof fn lemma_len(&self)
        requires
            self.wf(),
        ensures
            self@.dom().finite(),
            self@.len() == self.entries@.len(),
        decreases self.entries@.len(),
    {
        lemma_map_len(self.entries@);
    }

    fn index_of(&self, id: &str) -> (r: Option<usize>)
        ensures
            match r {
                Some(i) => i < self.entries@.len() && self.entries@[i as int].0@ == id@,
                None => forall|i: int| 0 <= i < self.entries@.len() ==> (#[trigger] self.entries@[i]).0@ != id@,
            },
    {
        let wanted = String::from_str(id);
        let mut i: usize = 0;
        while i < self.entries.len()
            invariant
                i <= self.entries@.len(),
                wanted@ == id@,
                forall|m: int| 0 <= m < i ==> (#[trigger] self.entries@[m]).0@ != id@,
            decreases self.entries@.len() - i,
        {
            if self.entries[i].0 == wanted {
                return Some(i);
            }
            i = i + 1;
        }
        None
    }

    /// Whether a request with this id awaits an answer.
    pub fn contains(&self, id: &str) -> (r: bool)
        ensures
            r == self@.contains_key(id@),
    {
        proof {
            lemma_entries_map_domain(self.entries@, id@);
        }
        self.index_of(id).is_some()
    }

    /// Records a request that now awaits an answer. An id that is already
    /// pending is refused and the table is left as it was.
    pub fn register(&mut self, id: String, slot: T) -> (ok: bool)
        requires
            old(self).wf(),
        ensures
            final(self).wf(),
            ok == !old(self)@.contains_key(id@),
            ok ==> final(self)@ == old(self)@.insert(id@, slot),
            !ok ==> final(self)@ == old(self)@,
    {
        proof {
            lemma_entries_map_domain(self.entries@, id@);
        }
        if self.index_of(id.as_str()).is_some() {
            return false;
        }
        let ghost before = self.entries@;
        self.entries.push((id, slot));
        proof {
            assert(self.entries@.drop_last() =~= before);
        }
        true
    }

    /// Takes the request `id` out of the table and hands back its slot; an id
    /// that is not pending (never sent, already answered, or timed out) gives
    /// `None` and leaves the table as it was.
    pub fn resolve(&mut self, id: &str) -> (r: Option<T>)
        requires
            old(self).wf(),
        ensures
            final(self).wf(),
            final(self)@ == old(self)@.remove(id@),
            match r {
                Some(slot) => old(self)@.contains_key(id@) && slot == old(self)@[id@],
                None => !old(self)@.contains_key(id@),
            },
    {
        proof {
            lemma_entries_map_domain(self.entries@, id@);
        }
        match self.index_of(id) {
            Some(i) => {
                let ghost before = self.entries@;
                proof {
                    lemma_entries_map_remove(before, i as int);
                }
                let (_, slot) = self.entries.remove(i);
                proof {
                    assert(self.entries@ =~= before.remove(i as int));
                    assert forall|a: int, b: int| 0 <= a < b < self.entries@.len() implies (
                    #[trigger] self.entries@[a]).0@ != (#[trigger] self.entries@[b]).0@ by {
                        let a2 = if a < i { a } else { a + 1 };
                        let b2 = if b < i { b } else { b + 1 };
                        assert(self.entries@[a] == before[a2] && self.entries@[b] == before[b2]);
                    }
                }
                Some(slot)
            },
            None => {
                proof {
                    assert(self@ =~= self@.remove(id@));
                }
                None
            },
        }
    }

    /// Empties the table and hands back every pending request, so that each
    /// waiter can be told that no answer will come.
    pub fn drain(&mut self) -> (r: Vec<(String, T)>)
        requires
            old(self).wf(),
        ensures
            final(self).wf(),
            final(self)@ == Map::<Seq<char>, T>::empty(),
            entries_map(r@) == old(self)@,
            ids_distinct(r@),
    {
        let mut out: Vec<(String, T)> = Vec::new();
        std::mem::swap(&mut out, &mut self.entries);
        out
    }
}

proof fn lemma_map_len<T>(s: Seq<(String, T)>)
    requires
        ids_distinct(s),
    ensures
        entries_map(s).dom().finite(),
        entries_map(s).len() == s.len(),
    decreases s.len(),
{
    if s.len() > 0 {
        let d = s.drop_last();
        assert(ids_distinct(d)) by {
            assert forall|a: int, b: int| 0 <= a < b < d.len() implies (#[trigger] d[a]).0@ != (#[trigger] d[b]).0@ by {
                assert(d[a] == s[a] && d[b] == s[b]);
            }
        }
        lemma_map_len(d);
        lemma_entries_map_domain(d, s.last().0@);
        assert forall|m: int| 0 <= m < d.len() implies (#[trigger] d[m]).0@ != s.last().0@ by {
            assert(d[m] == s[m]);
        }
    }
}

} // verus!
