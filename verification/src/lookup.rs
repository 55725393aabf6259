//! A small name-to-value table used for typedef registries, generic
//! substitutions, and per-instruction account data. Lookup follows the
//! most recent binding of a name, as a map built by repeated insertion
//! would.

use vstd::prelude::*;

use crate::text::string_eq_str;

verus! {

/// An ordered list of named entries.
#[derive(Debug)]
pub struct ToolboxIdlLookup<V> {
    pub entries: Vec<(String, V)>,
}

impl<V: View> View for ToolboxIdlLookup<V> {
    type V = Seq<(Seq<char>, V::V)>;

    open spec fn view(&self) -> Seq<(Seq<char>, V::V)> {
        Seq::new(self.entries@.len(), |i: int| (self.entries@[i].0@, self.entries@[i].1@))
    }
}

/// The value bound to `key`: the latest entry with that name wins.
pub open spec fn spec_lookup<T>(entries: Seq<(Seq<char>, T)>, key: Seq<char>) -> Option<T>
    decreases entries.len(),
{
    if entries.len() == 0 {
        None
    } else if entries.last().0 == key {
        Some(entries.last().1)
    } else {
        spec_lookup(entries.drop_last(), key)
    }
}

/// Whether some entry binds `key`.
pub open spec fn spec_lookup_has<T>(entries: Seq<(Seq<char>, T)>, key: Seq<char>) -> bool {
    spec_lookup(entries, key) is Some
}

impl<V: View> ToolboxIdlLookup<V> {
    /// An empty table.
    pub fn new() -> (r: ToolboxIdlLookup<V>)
        ensures
            r@ == Seq::<(Seq<char>, V::V)>::empty(),
    {
        let r = ToolboxIdlLookup { entries: Vec::new() };
        proof {
            assert(r@ =~= Seq::<(Seq<char>, V::V)>::empty());
        }
        r
    }

    /// Binds `name` to `value`, shadowing any earlier binding.
    pub fn insert(&mut self, name: String, value: V)
        ensures
            final(self)@ == old(self)@.push((name@, value@)),
    {
        let ghost prior = self@;
        self.entries.push((name, value));
        proof {
            assert(self@ =~= prior.push((self.entries@.last().0@, self.entries@.last().1@)));
        }
    }

    /// The number of entries.
    pub fn len(&self) -> (r: usize)
        ensures
            r == self@.len(),
    {
        self.entries.len()
    }

    /// The value bound to `key`, if any.
    pub fn get(&self, key: &str) -> (r: Option<&V>)
        ensures
            match r {
                Some(v) => spec_lookup(self@, key@) == Some(v@),
                None => spec_lookup(self@, key@) is None,
            },
    {
        let mut i: usize = self.entries.len();
        proof {
            assert(self@.take(self@.len() as int) =~= self@);
        }
        while i > 0
            invariant
                0 <= i <= self.entries.len(),
                spec_lookup(self@.take(i as int), key@) == spec_lookup(self@, key@),
            decreases i,
        {
            i = i - 1;
            proof {
                assert(self@.take(i + 1).last() == self@[i as int]);
                assert(self@.take(i + 1).drop_last() =~= self@.take(i as int));
            }
            if string_eq_str(&self.entries[i].0, key) {
                return Some(&self.entries[i].1);
            }
        }
        proof {
            assert(self@.take(0int) =~= Seq::<(Seq<char>, V::V)>::empty());
        }
        None
    }
}

} // verus!
