use vstd::prelude::*;

verus! {

/// Whether no two entries of `s` share a key.
pub open spec fn keys_unique<T>(s: Seq<(String, T)>) -> bool {
    forall|i: int, j: int| 0 <= i < s.len() && 0 <= j < s.len() && i != j ==> s[i].0@ != s[j].0@
}

/// The map that the entries of `s` describe: each key to its value.
pub open spec fn entries_map<T>(s: Seq<(String, T)>) -> Map<Seq<char>, T>
    decreases s.len(),
{
    if s.len() == 0 {
        Map::empty()
    } else {
        entries_map(s.drop_last()).insert(s.last().0@, s.last().1)
    }
}

/// The map built by offering each pair of `s` in turn, where a pair whose
/// key is already present is turned away: the first pair of each key wins.
pub open spec fn first_wins<T>(s: Seq<(Seq<char>, T)>) -> Map<Seq<char>, T>
    decreases s.len(),
{
    if s.len() == 0 {
        Map::empty()
    } else {
        let m = first_wins(s.drop_last());
        if m.contains_key(s.last().0) {
            m
        } else {
            m.insert(s.last().0, s.last().1)
        }
    }
}

/// The keys of the entries of `s`, in order.
pub open spec fn entries_keys<T>(s: Seq<(String, T)>) -> Seq<Seq<char>> {
    s.map_values(|e: (String, T)| e.0@)
}

pub proof fn lemma_entries_map_dom<T>(s: Seq<(String, T)>)
    ensures
        forall|k: Seq<char>| #![trigger entries_map(s).contains_key(k)]
            entries_map(s).contains_key(k) <==> exists|i: int| 0 <= i < s.len() && s[i].0@ == k,
    decreases s.len(),
{
    if s.len() > 0 {
        lemma_entries_map_dom(s.drop_last());
        assert forall|k: Seq<char>| entries_map(s).contains_key(k) implies exists|i: int|
            0 <= i < s.len() && s[i].0@ == k by {
            if k != s.last().0@ {
                assert(entries_map(s.drop_last()).contains_key(k));
                let i = choose|i: int| 0 <= i < s.drop_last().len() && s.drop_last()[i].0@ == k;
                assert(s[i].0@ == k);
            } else {
                assert(s[s.len() - 1].0@ == k);
            }
        }
        assert forall|k: Seq<char>| (exists|i: int| 0 <= i < s.len() && s[i].0@ == k) implies
            entries_map(s).contains_key(k) by {
            let i = choose|i: int| 0 <= i < s.len() && s[i].0@ == k;
            if i < s.len() - 1 {
                assert(s.drop_last()[i].0@ == k);
                assert(entries_map(s.drop_last()).contains_key(k));
            }
        }
    }
}

pub proof fn lemma_entries_map_index<T>(s: Seq<(String, T)>, i: int)
    requires
        keys_unique(s),
        0 <= i < s.len(),
    ensures
        entries_map(s).contains_key(s[i].0@),
        entries_map(s)[s[i].0@] == s[i].1,
    decreases s.len(),
{
    if i < s.len() - 1 {
        assert(keys_unique(s.drop_last()));
        assert(s.drop_last()[i] == s[i]);
        lemma_entries_map_index(s.drop_last(), i);
    }
}

/// When pairs are offered one by one and a pair whose key is present is
/// turned away, every key offered is present, with the value of the first
/// pair that carried it.
pub proof fn lemma_first_wins<T>(s: Seq<(Seq<char>, T)>, i: int)
    requires
        0 <= i < s.len(),
        forall|j: int| 0 <= j < i ==> s[j].0 != s[i].0,
    ensures
        first_wins(s).contains_key(s[i].0),
        first_wins(s)[s[i].0] == s[i].1,
    decreases s.len(),
{
    let k = s[i].0;
    let front = s.drop_last();
    if i < s.len() - 1 {
        assert(front[i] == s[i]);
        lemma_first_wins(front, i);
    } else {
        lemma_first_wins_absent(front, k);
    }
}

/// A key that no pair carries is absent.
pub proof fn lemma_first_wins_absent<T>(s: Seq<(Seq<char>, T)>, k: Seq<char>)
    requires
        forall|j: int| 0 <= j < s.len() ==> s[j].0 != k,
    ensures
        !first_wins(s).contains_key(k),
    decreases s.len(),
{
    if s.len() > 0 {
        lemma_first_wins_absent(s.drop_last(), k);
    }
}

/// Offering a pair to the map that `first_wins` builds is what
/// `ResourceMap::insert_new` does to its view.
pub proof fn lemma_first_wins_step<T>(s: Seq<(Seq<char>, T)>, k: Seq<char>, v: T)
    ensures
        first_wins(s.push((k, v))) == if first_wins(s).contains_key(k) {
            first_wins(s)
        } else {
            first_wins(s).insert(k, v)
        },
{
    assert(s.push((k, v)).drop_last() =~= s);
}

/// A collection of resources keyed by their ids, where each id occurs once.
pub struct ResourceMap<T> {
    entries: Vec<(String, T)>,
}

impl<T> ResourceMap<T> {
    /// Well-formedness: no id occurs twice.
    pub closed spec fn wf(&self) -> bool {
        keys_unique(self.entries@)
    }

    /// Each id to its resource.
    pub closed spec fn view(&self) -> Map<Seq<char>, T> {
        entries_map(self.entries@)
    }

    /// The ids, in the order in which they were inserted.
    pub closed spec fn keys(&self) -> Seq<Seq<char>> {
        entries_keys(self.entries@)
    }

    /// The resources, in the order in which they were inserted.
    pub closed spec fn values(&self) -> Seq<T> {
        self.entries@.map_values(|e: (String, T)| e.1)
    }

    /// The ids are distinct, an id is in the map exactly when it is among
    /// the ids, and the `i`-th id maps to the `i`-th resource.
    pub proof fn lemma_view(&self)
        requires
            self.wf(),
        ensures
            self.keys().len() == self.values().len(),
            self.keys().no_duplicates(),
            forall|k: Seq<char>| #![trigger self@.contains_key(k)]
                self@.contains_key(k) <==> self.keys().contains(k),
            forall|i: int| #![trigger self.keys()[i]]
                0 <= i < self.keys().len() ==> self@[self.keys()[i]] == self.values()[i],
    {
        lemma_entries_map_dom(self.entries@);
        assert forall|k: Seq<char>| self@.contains_key(k) implies self.keys().contains(k) by {
            let i = choose|i: int| 0 <= i < self.entries@.len() && self.entries@[i].0@ == k;
            assert(self.keys()[i] == k);
        }
        assert forall|i: int| 0 <= i < self.keys().len() implies self@[self.keys()[i]]
            == self.values()[i] by {
            lemma_entries_map_index(self.entries@, i);
        }
    }

    pub fn new() -> (m: Self)
        ensures
            m.wf(),
            m@ == Map::<Seq<char>, T>::empty(),
            m.keys() == Seq::<Seq<char>>::empty(),
    {
        let m = ResourceMap { entries: Vec::new() };
        assert(m.keys() =~= Seq::<Seq<char>>::empty());
        m
    }

    pub fn len(&self) -> (n: usize)
        requires
            self.wf(),
        ensures
            n == self.keys().len(),
            n == self@.len(),
    {
        proof {
                self.lemma_view();
            self.keys().unique_seq_to_set();
            assert(self@.dom() =~= self.keys().to_set());
        }
        self.entries.len()
    }

    /// The position of `id` among the entries, if it is there.
    fn find(&self, id: &String) -> (r: Option<usize>)
        ensures
            match r {
                Some(i) => i < self.entries@.len() && self.entries@[i as int].0@ == id@,
                None => forall|i: int| 0 <= i < self.entries@.len() ==> self.entries@[i].0@ != id@,
            },
    {
        let n = self.entries.len();
        let mut i: usize = 0;
        while i < n
            invariant
                n == self.entries@.len(),
                i <= n,
                forall|j: int| 0 <= j < i ==> self.entries@[j].0@ != id@,
            decreases n - i,
        {
            if self.entries[i].0 == *id {
                return Some(i);
            }
            i = i + 1;
        }
        None
    }

    pub fn contains_key(&self, id: &String) -> (b: bool)
        ensures
            b == self@.contains_key(id@),
    {
        proof {
            lemma_entries_map_dom(self.entries@);
        }
        self.find(id).is_some()
    }

    pub fn get(&self, id: &String) -> (r: Option<&T>)
        requires
            self.wf(),
        ensures
            match r {
                Some(v) => self@.contains_key(id@) && *v == self@[id@],
                None => !self@.contains_key(id@),
            },
    {
        proof {
                lemma_entries_map_dom(self.entries@);
        }
        match self.find(id) {
            Some(i) => {
                proof {
                    lemma_entries_map_index(self.entries@, i as int);
                }
                Some(&self.entries[i].1)
            },
            None => None,
        }
    }

    /// Adds `value` under `id` unless `id` is already present, in which case
    /// nothing changes. Returns whether the value was added.
    pub fn insert_new(&mut self, id: String, value: T) -> (added: bool)
        requires
            old(self).wf(),
        ensures
            final(self).wf(),
            added == !old(self)@.contains_key(id@),
            added ==> final(self)@ == old(self)@.insert(id@, value),
            added ==> final(self).keys() == old(self).keys().push(id@),
            added ==> final(self).values() == old(self).values().push(value),
            !added ==> final(self)@ == old(self)@,
            !added ==> final(self).keys() == old(self).keys(),
            !added ==> final(self).values() == old(self).values(),
    {
        proof {
            lemma_entries_map_dom(self.entries@);
        }
        if self.find(&id).is_some() {
            return false;
        }
        let ghost pre = self.entries@;
        self.entries.push((id, value));
        proof {
            assert(self.entries@.drop_last() =~= pre);
            assert(self.keys() =~= entries_keys(pre).push(id@));
            assert(self.values() =~= pre.map_values(|e: (String, T)| e.1).push(value));
        }
        true
    }
}

} // verus!
