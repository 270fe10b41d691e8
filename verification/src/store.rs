//! The variable store: a mutable mapping from variable name to [`Value`],
//! viewed in contracts as a `Map<Seq<u8>, ValueModel>`. Writing a name that
//! already exists overwrites it (last write wins); reading an absent name
//! is an ordinary `None`, never an error.

use vstd::prelude::*;
use crate::value::{Value, ValueModel};

verus! {

/// The map named by an entry list: entries are folded in order, so a later
/// entry for a name overrides an earlier one.
pub open spec fn entries_map(s: Seq<(Vec<u8>, Value)>) -> Map<Seq<u8>, ValueModel>
    decreases s.len(),
{
    if s.len() == 0 {
        Map::empty()
    } else {
        entries_map(s.drop_last()).insert(s.last().0@, s.last().1@)
    }
}

proof fn lemma_entries_map_found(s: Seq<(Vec<u8>, Value)>, name: Seq<u8>, i: int)
    requires
        0 <= i < s.len(),
        s[i].0@ == name,
        forall|j: int| i < j < s.len() ==> s[j].0@ != name,
    ensures
        entries_map(s).contains_key(name),
        entries_map(s)[name] == s[i].1@,
    decreases s.len(),
{
    if i == s.len() - 1 {
    } else {
        let t = s.drop_last();
        assert(forall|j: int| i < j < t.len() ==> #[trigger] t[j].0@ != name);
        lemma_entries_map_found(t, name, i);
        assert(s.last().0@ != name);
    }
}

proof fn lemma_entries_map_absent(s: Seq<(Vec<u8>, Value)>, name: Seq<u8>)
    requires
        forall|j: int| 0 <= j < s.len() ==> s[j].0@ != name,
    ensures
        !entries_map(s).contains_key(name),
    decreases s.len(),
{
    if s.len() > 0 {
        let t = s.drop_last();
        assert(forall|j: int| 0 <= j < t.len() ==> #[trigger] t[j].0@ != name);
        lemma_entries_map_absent(t, name);
        assert(s.last().0@ != name);
    }
}

/// The variable store.
pub struct Store {
    entries: Vec<(Vec<u8>, Value)>,
}

impl View for Store {
    type V = Map<Seq<u8>, ValueModel>;

    closed spec fn view(&self) -> Map<Seq<u8>, ValueModel> {
        entries_map(self.entries@)
    }
}

impl Store {
    /// An empty store: no variable is defined.
    pub fn new() -> (r: Store)
        ensures
            r@ == Map::<Seq<u8>, ValueModel>::empty(),
    {
        Store { entries: Vec::new() }
    }

    /// Binds `name` to `value`, overwriting any earlier binding.
    pub fn set(&mut self, name: Vec<u8>, value: Value)
        ensures
            final(self)@ == old(self)@.insert(name@, value@),
    {
        self.entries.push((name, value));
        proof {
            assert(self.entries@.drop_last() =~= old(self).entries@);
            assert(self.entries@.last().0@ == name@);
        }
    }

    /// The current value of `name`, or `None` when it is unbound.
    pub fn get(&self, name: &[u8]) -> (r: Option<&Value>)
        ensures
            match r {
                Some(v) => self@.contains_key(name@) && v@ == self@[name@],
                None => !self@.contains_key(name@),
            },
    {
        let n = self.entries.len();
        let mut k: usize = n;
        while k > 0
            invariant
                0 <= k <= n,
                n == self.entries@.len(),
                forall|j: int| k <= j < n ==> #[trigger] self.entries@[j].0@ != name@,
            decreases k,
        {
            k = k - 1;
            let entry = &self.entries[k];
            if crate::bytes::bytes_eq(entry.0.as_slice(), name) {
                proof {
                    lemma_entries_map_found(self.entries@, name@, k as int);
                }
                return Some(&self.entries[k].1);
            }
        }
        proof {
            lemma_entries_map_absent(self.entries@, name@);
        }
        None
    }
}

} // verus!
