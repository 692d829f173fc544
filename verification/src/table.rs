use vstd::prelude::*;

verus! {

/// An append-only name table: the backing store of the global variable
/// table and of the function table.  A later entry for a name shadows every
/// earlier one, so the table reads as the map built by inserting the entries
/// in order.
#[derive(Debug)]
pub struct NameTable<T> {
    pub entries: Vec<(String, T)>,
}

/// The map read of an entry sequence: entries inserted left to right, so the
/// rightmost binding of a name wins.
pub open spec fn map_of<V>(s: Seq<(Seq<char>, V)>) -> Map<Seq<char>, V>
    decreases s.len(),
{
    if s.len() == 0 {
        Map::empty()
    } else {
        map_of(s.drop_last()).insert(s.last().0, s.last().1)
    }
}

/// If `s[i]` is the last entry for the name `k`, the map read of `s` binds
/// `k` to that entry's value.
pub proof fn lemma_map_of_last_match<V>(s: Seq<(Seq<char>, V)>, k: Seq<char>, i: int)
    requires
        0 <= i < s.len(),
        s[i].0 == k,
        forall|j: int| i < j < s.len() ==> (#[trigger] s[j]).0 != k,
    ensures
        map_of(s).contains_key(k),
        map_of(s)[k] == s[i].1,
    decreases s.len(),
{
    if i < s.len() - 1 {
        lemma_map_of_last_match(s.drop_last(), k, i);
    }
}

/// If no entry of `s` carries the name `k`, the map read of `s` does not
/// bind `k`.
pub proof fn lemma_map_of_absent<V>(s: Seq<(Seq<char>, V)>, k: Seq<char>)
    requires
        forall|j: int| 0 <= j < s.len() ==> (#[trigger] s[j]).0 != k,
    ensures
        !map_of(s).contains_key(k),
    decreases s.len(),
{
    if s.len() > 0 {
        lemma_map_of_absent(s.drop_last(), k);
    }
}

impl<T: DeepView> NameTable<T> {
    /// The map this table currently represents.
    pub open spec fn model(self) -> Map<Seq<char>, T::V> {
        map_of(self.entries.deep_view())
    }

    /// An empty table.
    pub fn new() -> (r: NameTable<T>)
        ensures
            r.model() == Map::<Seq<char>, T::V>::empty(),
    {
        let r = NameTable { entries: Vec::new() };
        proof {
            assert(r.entries.deep_view() =~= Seq::<(Seq<char>, T::V)>::empty());
        }
        r
    }

    /// Binds `name` to `v`, shadowing any earlier binding.
    pub fn insert(&mut self, name: String, v: T)
        ensures
            final(self).model() == old(self).model().insert(name@, v.deep_view()),
    {
        let ghost old_entries = self.entries.deep_view();
        let ghost pair = (name@, v.deep_view());
        self.entries.push((name, v));
        proof {
            assert(self.entries.deep_view() =~= old_entries.push(pair));
            assert(old_entries.push(pair).drop_last() =~= old_entries);
            assert(final(self).model() =~= old(self).model().insert(pair.0, pair.1));
        }
    }

    /// The value currently bound to `name`, if any.
    pub fn get(&self, name: &String) -> (r: Option<&T>)
        ensures
            match r {
                Some(v) => self.model().contains_key(name@) && v.deep_view() == self.model()[name@],
                None => !self.model().contains_key(name@),
            },
    {
        let n = self.entries.len();
        let mut i: usize = n;
        while i > 0
            invariant
                i <= n,
                n == self.entries@.len(),
                forall|j: int|
                    i <= j < n ==> (#[trigger] self.entries.deep_view()[j]).0 != name@,
            decreases i,
        {
            i = i - 1;
            if self.entries[i].0.eq(name) {
                proof {
                    assert(self.entries.deep_view()[i as int].0 == name@);
                    lemma_map_of_last_match(self.entries.deep_view(), name@, i as int);
                }
                return Some(&self.entries[i].1);
            }
            proof {
                assert(self.entries.deep_view()[i as int].0 != name@);
            }
        }
        proof {
            lemma_map_of_absent(self.entries.deep_view(), name@);
        }
        None
    }

    /// Whether `name` is currently bound.
    pub fn contains(&self, name: &String) -> (r: bool)
        ensures
            r == self.model().contains_key(name@),
    {
        match self.get(name) {
            Some(_) => true,
            None => false,
        }
    }
}

} // verus!
