//! A keyed storage slot collection: a map from `u128` keys to values,
//! backed by two parallel vectors with unique keys.
//!
//! This models the host's pool-keyed and user-keyed storage: every
//! operation reads a slot, produces a new value, and writes it back.  The
//! abstract view of a `KeyMap<T>` is a `Map<u128, T>`.

use vstd::prelude::*;

verus! {

/// All keys of the sequence are pairwise distinct.
pub open spec fn unique_keys(keys: Seq<u128>) -> bool {
    forall|i: int, j: int| 0 <= i < j < keys.len() ==> keys[i] != keys[j]
}

/// If a key occurs at position `i` of a duplicate-free sequence, then `i`
/// is the position `index_of` resolves to.
proof fn lemma_unique_index(keys: Seq<u128>, i: int, k: u128)
    requires
        unique_keys(keys),
        0 <= i < keys.len(),
        keys[i] == k,
    ensures
        keys.contains(k),
        keys.index_of(k) == i,
{
    assert(keys.contains(k));
    let j = keys.index_of(k);
    assert(0 <= j < keys.len() && keys[j] == k);
    if i < j {
        assert(keys[i] != keys[j]);
    } else if j < i {
        assert(keys[j] != keys[i]);
    }
}

/// A map from `u128` keys to values of type `T`.
pub struct KeyMap<T> {
    keys: Vec<u128>,
    vals: Vec<T>,
}

impl<T> View for KeyMap<T> {
    type V = Map<u128, T>;

    closed spec fn view(&self) -> Map<u128, T> {
        Map::new(
            |k: u128| self.keys@.contains(k),
            |k: u128| self.vals@[self.keys@.index_of(k)],
        )
    }
}

impl<T> KeyMap<T> {
    /// The representation invariant: parallel vectors of equal length,
    /// with no key stored twice.
    pub closed spec fn wf(self) -> bool {
        &&& self.keys@.len() == self.vals@.len()
        &&& unique_keys(self.keys@)
    }

    /// The empty map.
    pub fn new() -> (r: Self)
        ensures
            r.wf(),
            r@ == Map::<u128, T>::empty(),
    {
        let r = KeyMap { keys: Vec::new(), vals: Vec::new() };
        proof {
            assert(r@ =~= Map::<u128, T>::empty());
        }
        r
    }

    /// Look a key up; `None` when the key holds no slot.
    pub fn get(&self, k: u128) -> (r: Option<&T>)
        requires
            self.wf(),
        ensures
            match r {
                Some(v) => self@.contains_key(k) && *v == self@[k],
                None => !self@.contains_key(k),
            },
    {
        let n = self.keys.len();
        let mut i: usize = 0;
        while i < n
            invariant
                n == self.keys.len(),
                self.wf(),
                i <= n,
                forall|j: int| 0 <= j < i ==> self.keys@[j] != k,
            decreases n - i,
        {
            if self.keys[i] == k {
                proof {
                    lemma_unique_index(self.keys@, i as int, k);
                }
                return Some(&self.vals[i]);
            }
            i += 1;
        }
        proof {
            assert(!self.keys@.contains(k));
        }
        None
    }

    /// Store a value under a key, replacing any previous value.
    pub fn set(&mut self, k: u128, v: T)
        requires
            old(self).wf(),
        ensures
            final(self).wf(),
            final(self)@ == old(self)@.insert(k, v),
    {
        let n = self.keys.len();
        let mut i: usize = 0;
        while i < n
            invariant
                n == self.keys.len(),
                self.wf(),
                self == old(self),
                i <= n,
                forall|j: int| 0 <= j < i ==> self.keys@[j] != k,
            decreases n - i,
        {
            if self.keys[i] == k {
                proof {
                    lemma_unique_index(self.keys@, i as int, k);
                }
                self.vals.set(i, v);
                proof {
                    assert forall|k2: u128| #[trigger] old(self)@.insert(k, v).contains_key(k2)
                        implies self@.contains_key(k2) && self@[k2] == old(self)@.insert(k, v)[k2]
                    by {
                        assert(self.keys@.contains(k2));
                        let j = self.keys@.index_of(k2);
                        assert(0 <= j < self.keys@.len() && self.keys@[j] == k2);
                        if k2 == k {
                            lemma_unique_index(self.keys@, i as int, k);
                        } else {
                            lemma_unique_index(self.keys@, j, k2);
                            assert(j != i);
                        }
                    }
                    assert(final(self)@ =~= old(self)@.insert(k, v));
                }
                return;
            }
            i += 1;
        }
        self.keys.push(k);
        self.vals.push(v);
        proof {
            let oldk = old(self).keys@;
            let newk = self.keys@;
            assert(!oldk.contains(k));
            assert forall|a: int, b: int| 0 <= a < b < newk.len() implies newk[a] != newk[b] by {
                if b == newk.len() - 1 {
                    assert(newk[a] == oldk[a]);
                    assert(newk[b] == k);
                } else {
                    assert(newk[a] == oldk[a] && newk[b] == oldk[b]);
                }
            }
            assert forall|k2: u128| #[trigger] old(self)@.insert(k, v).contains_key(k2)
                implies self@.contains_key(k2) && self@[k2] == old(self)@.insert(k, v)[k2]
            by {
                if k2 == k {
                    lemma_unique_index(newk, newk.len() - 1, k);
                } else {
                    assert(oldk.contains(k2));
                    let j = oldk.index_of(k2);
                    assert(0 <= j < oldk.len() && oldk[j] == k2);
                    assert(newk[j] == k2);
                    lemma_unique_index(newk, j, k2);
                    lemma_unique_index(oldk, j, k2);
                }
            }
            assert forall|k2: u128| #[trigger] self@.contains_key(k2)
                implies old(self)@.insert(k, v).contains_key(k2)
            by {
                if k2 != k {
                    let j = newk.index_of(k2);
                    assert(0 <= j < newk.len() && newk[j] == k2);
                    assert(j != newk.len() - 1);
                    assert(oldk[j] == k2);
                    assert(oldk.contains(k2));
                }
            }
            assert(final(self)@ =~= old(self)@.insert(k, v));
        }
    }
}

} // verus!
