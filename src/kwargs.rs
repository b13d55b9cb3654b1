//! An insertion-ordered keyword mapping with distinct keys.
use vstd::prelude::*;

verus! {

/// True when no key occurs twice in `s`.
pub open spec fn keys_distinct<V>(s: Seq<(Seq<char>, V)>) -> bool {
    forall|i: int, j: int|
        0 <= i < s.len() && 0 <= j < s.len() && i != j ==> s[i].0 != s[j].0
}

/// True when `key` is one of the keys of `s`.
pub open spec fn has_key<V>(s: Seq<(Seq<char>, V)>, key: Seq<char>) -> bool {
    exists|k: int| 0 <= k < s.len() && s[k].0 == key
}

/// The value stored under `key`, if any.
pub open spec fn lookup<V>(s: Seq<(Seq<char>, V)>, key: Seq<char>) -> Option<V> {
    if has_key(s, key) {
        Some(s[choose|k: int| 0 <= k < s.len() && s[k].0 == key].1)
    } else {
        None
    }
}

/// The mapping after `key` is set to `value`: an existing entry keeps its
/// place and takes the new value, a new key goes last.
pub open spec fn with_entry<V>(s: Seq<(Seq<char>, V)>, key: Seq<char>, value: V) -> Seq<
    (Seq<char>, V),
> {
    if has_key(s, key) {
        s.update(choose|k: int| 0 <= k < s.len() && s[k].0 == key, (key, value))
    } else {
        s.push((key, value))
    }
}

/// Keyword arguments of one call: names with values, in the order the caller
/// gave them, each name at most once.
pub struct KwArgs<V> {
    entries: Vec<(String, V)>,
}

impl<V> View for KwArgs<V> {
    type V = Seq<(Seq<char>, V)>;

    closed spec fn view(&self) -> Seq<(Seq<char>, V)> {
        self.entries@.map_values(|e: (String, V)| (e.0@, e.1))
    }
}

impl<V> KwArgs<V> {
    /// Well-formed: no key occurs twice.
    pub open spec fn wf(&self) -> bool {
        keys_distinct(self@)
    }
}

impl<V: Copy> KwArgs<V> {
    /// An empty mapping.
    pub fn new() -> (r: Self)
        ensures
            r@ == Seq::<(Seq<char>, V)>::empty(),
            r.wf(),
    {
        let r = KwArgs { entries: Vec::new() };
        assert(r@ =~= Seq::<(Seq<char>, V)>::empty());
        r
    }

    /// The number of entries.
    pub fn len(&self) -> (r: usize)
        ensures
            r == self@.len(),
    {
        self.entries.len()
    }

    /// Whether the mapping has no entry.
    pub fn is_empty(&self) -> (r: bool)
        ensures
            r == (self@.len() == 0),
    {
        self.entries.len() == 0
    }

    /// The index of the entry whose key is `key`.
    pub fn position(&self, key: &str) -> (r: Option<usize>)
        ensures
            match r {
                Some(k) => k < self@.len() && self@[k as int].0 == key@,
                None => !has_key(self@, key@),
            },
    {
        let target = key.to_owned();
        let mut k: usize = 0;
        while k < self.entries.len()
            invariant
                target@ == key@,
                k <= self.entries@.len(),
                forall|j: int| 0 <= j < k ==> self@[j].0 != key@,
            decreases self.entries@.len() - k,
        {
            if self.entries[k].0 == target {
                return Some(k);
            }
            k = k + 1;
        }
        None
    }

    /// The key of the entry at `k`.
    pub fn key_at(&self, k: usize) -> (r: String)
        requires
            k < self@.len(),
        ensures
            r@ == self@[k as int].0,
    {
        self.entries[k].0.clone()
    }

    /// The value of the entry at `k`.
    pub fn value_at(&self, k: usize) -> (r: V)
        requires
            k < self@.len(),
        ensures
            r == self@[k as int].1,
    {
        self.entries[k].1
    }

    /// The value stored under `key`, if any.
    pub fn get(&self, key: &str) -> (r: Option<V>)
        requires
            self.wf(),
        ensures
            r == lookup(self@, key@),
    {
        match self.position(key) {
            Some(k) => Some(self.entries[k].1),
            None => None,
        }
    }

    /// Appends an entry under a key that the mapping does not hold yet.
    pub fn push_new(&mut self, key: String, value: V)
        requires
            old(self).wf(),
            !has_key(old(self)@, key@),
        ensures
            final(self).wf(),
            final(self)@ == old(self)@.push((key@, value)),
    {
        let ghost prev = self@;
        let ghost kv = key@;
        self.entries.push((key, value));
        assert(self@ =~= prev.push((kv, value)));
    }

    /// Sets `key` to `value`, replacing the value of an existing entry.
    pub fn insert(&mut self, key: String, value: V)
        requires
            old(self).wf(),
        ensures
            final(self).wf(),
            final(self)@ == with_entry(old(self)@, key@, value),
    {
        let ghost prev = self@;
        let ghost kv = key@;
        match self.position(key.as_str()) {
            Some(k) => {
                self.entries.set(k, (key, value));
                proof {
                    let c = choose|j: int| 0 <= j < prev.len() && prev[j].0 == kv;
                    assert(c == k as int);
                    assert(self@ =~= prev.update(k as int, (kv, value)));
                }
            },
            None => {
                self.entries.push((key, value));
                assert(self@ =~= prev.push((kv, value)));
            },
        }
    }
}

} // verus!
