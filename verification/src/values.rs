//! The evaluation-scoped node value store: a mapping from
//! `(producing node id, output handle)` to a fixed-point value.  It is
//! created empty at the start of an evaluation and discarded at the
//! end; no value survives across calls.

use vstd::prelude::*;

use crate::fixed::MAX_VALUE;

verus! {

/// One recorded value: the producing node, the output handle, and the
/// value itself.
pub struct ValueEntry {
    pub node: String,
    pub handle: String,
    pub value: i64,
}

/// Entries in recording order; a later entry for the same key
/// overrides an earlier one, as its abstraction says.
pub struct ValueStore {
    entries: Vec<ValueEntry>,
}

/// The map a sequence of entries denotes: each entry overrides what
/// came before it.
pub open spec fn store_map_of(s: Seq<ValueEntry>) -> Map<(Seq<char>, Seq<char>), i64>
    decreases s.len(),
{
    if s.len() == 0 {
        Map::empty()
    } else {
        store_map_of(s.drop_last()).insert((s.last().node@, s.last().handle@), s.last().value)
    }
}

/// If entry `i` has the key and no later entry does, the denoted map
/// holds entry `i`'s value at that key.
proof fn lemma_store_map_match(s: Seq<ValueEntry>, k: (Seq<char>, Seq<char>), i: int)
    requires
        0 <= i < s.len(),
        (s[i].node@, s[i].handle@) == k,
        forall|j: int| i < j < s.len() ==> ((#[trigger] s[j]).node@, s[j].handle@) != k,
    ensures
        store_map_of(s).contains_key(k),
        store_map_of(s)[k] == s[i].value,
    decreases s.len(),
{
    if i == s.len() - 1 {
    } else {
        lemma_store_map_match(s.drop_last(), k, i);
    }
}

/// If no entry has the key, the denoted map has no value at it.
proof fn lemma_store_map_no_match(s: Seq<ValueEntry>, k: (Seq<char>, Seq<char>))
    requires
        forall|j: int| 0 <= j < s.len() ==> ((#[trigger] s[j]).node@, s[j].handle@) != k,
    ensures
        !store_map_of(s).contains_key(k),
    decreases s.len(),
{
    if s.len() > 0 {
        lemma_store_map_no_match(s.drop_last(), k);
    }
}

impl ValueStore {
    /// The map this store denotes.
    pub closed spec fn view(self) -> Map<(Seq<char>, Seq<char>), i64> {
        store_map_of(self.entries@)
    }

    /// Every recorded value lies within the engine's value bound.
    pub closed spec fn bounded(self) -> bool {
        forall|j: int|
            0 <= j < self.entries@.len() ==> -MAX_VALUE <= (#[trigger] self.entries@[j]).value
                <= MAX_VALUE
    }

    /// An empty store.
    pub fn new() -> (s: ValueStore)
        ensures
            s.view() == Map::<(Seq<char>, Seq<char>), i64>::empty(),
            s.bounded(),
    {
        ValueStore { entries: Vec::new() }
    }

    /// Records `value` for `(node, handle)`, overriding any earlier
    /// record.
    pub fn set(&mut self, node: &String, handle: &str, value: i64)
        ensures
            final(self).view() == old(self).view().insert((node@, handle@), value),
            old(self).bounded() && -MAX_VALUE <= value <= MAX_VALUE ==> final(self).bounded(),
    {
        let entry = ValueEntry { node: node.clone(), handle: handle.to_owned(), value };
        self.entries.push(entry);
        proof {
            assert(self.entries@.drop_last() =~= old(self).entries@);
        }
    }

    /// The recorded value for `(node, handle)`, if any.
    pub fn get(&self, node: &String, handle: &String) -> (r: Option<i64>)
        ensures
            r == if self.view().contains_key((node@, handle@)) {
                Some(self.view()[(node@, handle@)])
            } else {
                None::<i64>
            },
            self.bounded() && r is Some ==> -MAX_VALUE <= r->0 <= MAX_VALUE,
    {
        let ghost k = (node@, handle@);
        let mut i: usize = self.entries.len();
        while i > 0
            invariant
                0 <= i <= self.entries@.len(),
                forall|j: int|
                    i <= j < self.entries@.len() ==> ((#[trigger] self.entries@[j]).node@,
                    self.entries@[j].handle@) != k,
                k == (node@, handle@),
            decreases i,
        {
            i -= 1;
            let e = &self.entries[i];
            if e.node == *node && e.handle == *handle {
                proof {
                    lemma_store_map_match(self.entries@, k, i as int);
                }
                return Some(e.value);
            }
        }
        proof {
            lemma_store_map_no_match(self.entries@, k);
        }
        None
    }
}

} // verus!
