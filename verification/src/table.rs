//! A small map from text keys to values, kept as a list of distinct keys.
use vstd::prelude::*;

verus! {

/// A map from text keys to values; each key at most once.
///
/// Kept as two vectors rather than a `std::collections::HashMap<String, V>`:
/// vstd specifies `HashMap` only for keys that obey its hashing key model
/// (integers, `bool` and boxes of them), so with `String` keys no call on it
/// would have a contract to prove against.
pub struct Table<V> {
    keys: Vec<String>,
    vals: Vec<V>,
}

impl<V> Table<V> {
    #[verifier::type_invariant]
    spec fn inv(self) -> bool {
        &&& self.keys@.len() == self.vals@.len()
        &&& forall|i: int, j: int|
            0 <= i < j < self.keys@.len() ==> (#[trigger] self.keys@[i])@ != (#[trigger] self.keys@[j])@
    }

    /// The entries as a map from key text to value.
    pub closed spec fn map(self) -> Map<Seq<char>, V> {
        Map::new(
            |k: Seq<char>| exists|i: int| 0 <= i < self.keys@.len() && self.keys@[i]@ == k,
            |k: Seq<char>| {
                let i = choose|i: int| 0 <= i < self.keys@.len() && self.keys@[i]@ == k;
                self.vals@[i]
            },
        )
    }

    /// An empty table.
    pub fn new() -> (r: Table<V>)
        ensures
            r.map() == Map::<Seq<char>, V>::empty(),
    {
        let r = Table { keys: Vec::new(), vals: Vec::new() };
        proof {
            assert(r.map() =~= Map::<Seq<char>, V>::empty());
        }
        r
    }

    /// Number of keys.
    pub fn len(&self) -> (r: usize)
        ensures
            r == self.map().dom().len(),
    {
        proof {
            use_type_invariant(self);
            self.lemma_dom_len();
        }
        self.keys.len()
    }

    /// The domain has one key per entry.
    proof fn lemma_dom_len(self)
        requires
            self.inv(),
        ensures
            self.map().dom().len() == self.keys@.len(),
            self.map().dom().finite(),
        decreases self.keys@.len(),
    {
        let ks = self.keys@.map_values(|s: String| s@);
        assert(ks.no_duplicates()) by {
            assert forall|i: int, j: int| 0 <= i < ks.len() && 0 <= j < ks.len() && i != j implies ks[i] != ks[j] by {
                if i < j {
                    assert(self.keys@[i]@ != self.keys@[j]@);
                } else {
                    assert(self.keys@[j]@ != self.keys@[i]@);
                }
            }
        }
        assert(self.map().dom() =~= ks.to_set()) by {
            assert forall|k: Seq<char>| self.map().dom().contains(k) implies ks.to_set().contains(k) by {
                let i = choose|i: int| 0 <= i < self.keys@.len() && self.keys@[i]@ == k;
                assert(ks[i] == k);
            }
            assert forall|k: Seq<char>| ks.to_set().contains(k) implies self.map().dom().contains(k) by {
                let i = choose|i: int| 0 <= i < ks.len() && ks[i] == k;
                assert(self.keys@[i]@ == k);
            }
        }
        ks.unique_seq_to_set();
    }

    /// The value stored under `key`, if any.
    pub fn get(&self, key: &str) -> (r: Option<&V>)
        ensures
            r is Some <==> self.map().contains_key(key@),
            r matches Some(v) ==> *v == self.map()[key@],
    {
        proof {
            use_type_invariant(self);
        }
        let k = String::from_str(key);
        let mut i: usize = 0;
        while i < self.keys.len()
            invariant
                0 <= i <= self.keys.len(),
                self.inv(),
                k@ == key@,
                forall|j: int| 0 <= j < i ==> self.keys@[j]@ != key@,
            decreases self.keys.len() - i,
        {
            if self.keys[i] == k {
                proof {
                    assert(self.map().contains_key(key@));
                    let w = choose|w: int| 0 <= w < self.keys@.len() && self.keys@[w]@ == key@;
                    if w < i as int {
                    } else if w > i as int {
                        assert((self.keys@[i as int])@ != (self.keys@[w])@);
                    }
                }
                return Some(&self.vals[i]);
            }
            i = i + 1;
        }
        None
    }

    /// Stores `value` under `key`, replacing what was stored under it.
    pub fn insert(&mut self, key: &str, value: V)
        ensures
            final(self).map() == old(self).map().insert(key@, value),
    {
        proof {
            use_type_invariant(&*self);
        }
        let ghost before = self.map();
        let ghost ok = self.keys@;
        let ghost ov = self.vals@;
        let mut whole: Table<V> = Table { keys: Vec::new(), vals: Vec::new() };
        std::mem::swap(&mut whole, self);
        let Table { keys: mut keys, vals: mut vals } = whole;
        let k = String::from_str(key);
        let mut i: usize = 0;
        let mut found = false;
        while i < keys.len()
            invariant_except_break
                !found,
            invariant
                0 <= i <= keys.len(),
                keys@ == ok,
                k@ == key@,
                forall|j: int| 0 <= j < i ==> ok[j]@ != key@,
            ensures
                i <= keys.len(),
                keys@ == ok,
                found ==> i < keys.len() && ok[i as int]@ == key@,
                !found ==> forall|j: int| 0 <= j < keys.len() ==> ok[j]@ != key@,
            decreases keys.len() - i,
        {
            if keys[i] == k {
                found = true;
                break;
            }
            i = i + 1;
        }
        if found {
            vals.set(i, value);
        } else {
            keys.push(k);
            vals.push(value);
        }
        let ghost n = ok.len() as int;
        let ghost pos = if found { i as int } else { n };
        proof {
            assert(keys@[pos]@ == key@);
            assert(vals@[pos] == value);
            assert forall|a: int, b: int|
                0 <= a < b < keys@.len() implies (#[trigger] keys@[a])@ != (#[trigger] keys@[b])@ by {
                if found {
                    assert(keys@[a] == ok[a] && keys@[b] == ok[b]);
                } else if b == n {
                    assert(keys@[a] == ok[a]);
                } else {
                    assert(keys@[a] == ok[a] && keys@[b] == ok[b]);
                }
            }
        }
        *self = Table { keys, vals };
        proof {
            let after = before.insert(key@, value);
            assert forall|w: int| 0 <= w < self.keys@.len() && w != pos implies #[trigger] self.keys@[w] == ok[w] && self.vals@[w] == ov[w] by {}
            assert forall|k: Seq<char>| #[trigger] self.map().contains_key(k) == after.contains_key(k) by {
                if k == key@ {
                    assert(self.keys@[pos]@ == k);
                } else if before.contains_key(k) {
                    let w = choose|w: int| 0 <= w < ok.len() && ok[w]@ == k;
                    assert(self.keys@[w] == ok[w]);
                } else if self.map().contains_key(k) {
                    let w = choose|w: int| 0 <= w < self.keys@.len() && self.keys@[w]@ == k;
                    assert(w != pos);
                    assert(ok[w]@ == k);
                }
            }
            assert forall|k: Seq<char>| #[trigger] self.map().contains_key(k) implies self.map()[k] == after[k] by {
                let w = choose|w: int| 0 <= w < self.keys@.len() && self.keys@[w]@ == k;
                if k != key@ {
                    let v = choose|v: int| 0 <= v < ok.len() && ok[v]@ == k;
                    assert(v != pos);
                    assert(self.keys@[v] == ok[v]);
                    if w < v {
                        assert((self.keys@[w])@ != (self.keys@[v])@);
                    } else if w > v {
                        assert((self.keys@[v])@ != (self.keys@[w])@);
                    }
                } else {
                    if w < pos {
                        assert((self.keys@[w])@ != (self.keys@[pos])@);
                    } else if w > pos {
                        assert((self.keys@[pos])@ != (self.keys@[w])@);
                    }
                }
            }
            assert(self.map() =~= after);
        }
    }
}

} // verus!
