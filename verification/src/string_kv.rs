use vstd::prelude::*;

verus! {

/// An association list from `String` keys to values, viewed as a finite
/// `Map` from the keys' character sequences to the stored values. Later
/// insertions shadow earlier ones, so `insert` is a plain push and the
/// view is exactly `Map::insert` on the previous view.
pub struct StringKeyMap<V> {
    entries: Vec<(String, V)>,
}

/// The map denoted by a sequence of key/value entries: later entries win.
spec fn kv_map<V>(entries: Seq<(String, V)>) -> Map<Seq<char>, V>
    decreases entries.len(),
{
    if entries.len() == 0 {
        Map::empty()
    } else {
        kv_map(entries.drop_last()).insert(entries.last().0@, entries.last().1)
    }
}

proof fn lemma_kv_map_finite<V>(entries: Seq<(String, V)>)
    ensures
        kv_map(entries).dom().finite(),
    decreases entries.len(),
{
    if entries.len() == 0 {
    } else {
        lemma_kv_map_finite(entries.drop_last());
    }
}

proof fn lemma_kv_map_absent<V>(entries: Seq<(String, V)>, k: Seq<char>)
    requires
        forall|i: int| 0 <= i < entries.len() ==> entries[i].0@ != k,
    ensures
        !kv_map(entries).contains_key(k),
    decreases entries.len(),
{
    if entries.len() == 0 {
    } else {
        lemma_kv_map_absent(entries.drop_last(), k);
    }
}

proof fn lemma_kv_map_found<V>(entries: Seq<(String, V)>, k: Seq<char>, i: int)
    requires
        0 <= i < entries.len(),
        entries[i].0@ == k,
        forall|j: int| i < j < entries.len() ==> entries[j].0@ != k,
    ensures
        kv_map(entries).contains_key(k),
        kv_map(entries)[k] == entries[i].1,
    decreases entries.len(),
{
    if i < entries.len() - 1 {
        lemma_kv_map_found(entries.drop_last(), k, i);
    }
}

impl<V> View for StringKeyMap<V> {
    type V = Map<Seq<char>, V>;

    closed spec fn view(&self) -> Map<Seq<char>, V> {
        kv_map(self.entries@)
    }
}

impl<V> StringKeyMap<V> {
    pub fn new() -> (r: Self)
        ensures
            r@ == Map::<Seq<char>, V>::empty(),
    {
        StringKeyMap { entries: Vec::new() }
    }

    pub fn insert(&mut self, key: String, value: V)
        ensures
            final(self)@ == old(self)@.insert(key@, value),
    {
        let ghost pre = self.entries@;
        self.entries.push((key, value));
        proof {
            assert(self.entries@.drop_last() =~= pre);
        }
    }

    pub fn get(&self, key: &String) -> (r: Option<&V>)
        ensures
            match r {
                Some(v) => self@.contains_key(key@) && *v == self@[key@],
                None => !self@.contains_key(key@),
            },
    {
        let n: usize = self.entries.len();
        let mut i: usize = n;
        while i > 0
            invariant
                i <= n,
                n == self.entries.len(),
                forall|j: int| i <= j < n ==> self.entries@[j].0@ != key@,
            decreases i,
        {
            i = i - 1;
            if self.entries[i].0 == *key {
                proof {
                    lemma_kv_map_found(self.entries@, key@, i as int);
                }
                return Some(&self.entries[i].1);
            }
        }
        proof {
            lemma_kv_map_absent(self.entries@, key@);
        }
        None
    }

    pub fn clear(&mut self)
        ensures
            final(self)@ == Map::<Seq<char>, V>::empty(),
    {
        self.entries.clear();
    }

    /// The map's domain is always finite; callers use it as a measure.
    pub proof fn lemma_view_finite(&self)
        ensures
            self@.dom().finite(),
    {
        lemma_kv_map_finite(self.entries@);
    }
}

} // verus!
