//! A small association table keyed by variable names, used for the scope
//! map of the uniquifier, the stack-home map, and the interpreter's
//! environment. Bindings are kept in insertion order; a later binding for
//! the same name shadows an earlier one, so the table abstracts to the map
//! built by inserting its entries front to back.

use vstd::prelude::*;

verus! {

/// The map described by an entry sequence: each entry overrides earlier
/// bindings of the same key.
pub open spec fn map_of<T>(s: Seq<(Seq<char>, T)>) -> Map<Seq<char>, T>
    decreases s.len(),
{
    if s.len() == 0 {
        Map::empty()
    } else {
        map_of(s.drop_last()).insert(s.last().0, s.last().1)
    }
}

/// Dropping a suffix whose keys never mention `k` does not change what the
/// map says about `k`.
proof fn lemma_map_of_suffix_no_key<T>(s: Seq<(Seq<char>, T)>, n: int, k: Seq<char>)
    requires
        0 <= n <= s.len(),
        forall|j: int| n <= j < s.len() ==> (#[trigger] s[j]).0 != k,
    ensures
        map_of(s).contains_key(k) == map_of(s.take(n)).contains_key(k),
        map_of(s).contains_key(k) ==> map_of(s)[k] == map_of(s.take(n))[k],
    decreases s.len() - n,
{
    if n < s.len() {
        let s1 = s.take(s.len() - 1);
        assert(s1 =~= s.drop_last());
        lemma_map_of_suffix_no_key(s1, n, k);
        assert(s1.take(n) =~= s.take(n));
    } else {
        assert(s.take(n) =~= s);
    }
}

pub struct Table<V> {
    items: Vec<(String, V)>,
}

impl<V: View> Table<V> {
    /// The entries in insertion order, names abstracted to character
    /// sequences.
    pub closed spec fn entries(&self) -> Seq<(Seq<char>, V::V)> {
        self.items@.map_values(|p: (String, V)| (p.0@, p.1@))
    }

    /// The table as a map; later entries shadow earlier ones.
    pub open spec fn as_map(&self) -> Map<Seq<char>, V::V> {
        map_of(self.entries())
    }

    pub fn new() -> (r: Table<V>)
        ensures
            r.entries() == Seq::<(Seq<char>, V::V)>::empty(),
    {
        let r = Table { items: Vec::new() };
        proof {
            assert(r.entries() =~= Seq::<(Seq<char>, V::V)>::empty());
        }
        r
    }

    pub fn push(&mut self, k: String, v: V)
        ensures
            final(self).entries() == old(self).entries().push((k@, v@)),
            final(self).as_map() == old(self).as_map().insert(k@, v@),
    {
        let ghost k_view = k@;
        let ghost v_view = v@;
        self.items.push((k, v));
        proof {
            assert(self.entries() =~= old(self).entries().push((k_view, v_view)));
            assert(self.entries().drop_last() =~= old(self).entries());
        }
    }

    pub fn pop_entry(&mut self)
        requires
            old(self).entries().len() > 0,
        ensures
            final(self).entries() == old(self).entries().drop_last(),
    {
        self.items.pop();
        proof {
            assert(self.entries() =~= old(self).entries().drop_last());
        }
    }

    pub fn len(&self) -> (r: usize)
        ensures
            r == self.entries().len(),
    {
        self.items.len()
    }

    /// Finds the value bound to `k`, honouring shadowing: the latest entry
    /// for `k` wins.
    pub fn lookup(&self, k: &String) -> (r: Option<&V>)
        ensures
            match r {
                Some(v) => self.as_map().contains_key(k@) && v@ == self.as_map()[k@],
                None => !self.as_map().contains_key(k@),
            },
    {
        let n = self.items.len();
        let mut i: usize = n;
        while i > 0
            invariant
                i <= n,
                n == self.items.len(),
                forall|j: int| i <= j < n ==> (#[trigger] self.entries()[j]).0 != k@,
            decreases i,
        {
            i = i - 1;
            if self.items[i].0 == *k {
                proof {
                    lemma_map_of_suffix_no_key(self.entries(), i + 1, k@);
                    assert(self.entries().take(i + 1).drop_last() =~= self.entries().take(
                        i as int,
                    ));
                    assert(self.entries().take(i + 1).last() == self.entries()[i as int]);
                }
                return Some(&self.items[i].1);
            }
        }
        proof {
            lemma_map_of_suffix_no_key(self.entries(), 0, k@);
            assert(self.entries().take(0) =~= Seq::<(Seq<char>, V::V)>::empty());
        }
        None
    }
}

impl<V: View + Copy> Table<V> {
    /// A copy with the same entries.
    pub fn duplicate(&self) -> (r: Table<V>)
        ensures
            r.entries() == self.entries(),
    {
        let mut items: Vec<(String, V)> = Vec::new();
        let n = self.items.len();
        let mut i: usize = 0;
        while i < n
            invariant
                i <= n,
                n == self.items.len(),
                items@.len() == i,
                forall|j: int|
                    0 <= j < i ==> (#[trigger] items@[j]).0@ == self.items@[j].0@ && items@[j].1
                        == self.items@[j].1,
            decreases n - i,
        {
            let k = self.items[i].0.clone();
            let v = self.items[i].1;
            items.push((k, v));
            i = i + 1;
        }
        let r = Table { items };
        proof {
            assert(r.entries() =~= self.entries());
        }
        r
    }
}

} // verus!
